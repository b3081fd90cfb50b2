use duocb::net::endpoint::{channel_readiness, endpoint_usable, EndpointReadiness};
use duocb::net::SignalChannel;

#[test]
fn each_channel_enables_its_backends_and_endpoint_gate() {
    assert!(SignalChannel::LanThenNostr.lan() && SignalChannel::LanThenNostr.nostr());
    assert!(SignalChannel::LanOnly.lan() && !SignalChannel::LanOnly.nostr());
    assert!(!SignalChannel::NostrOnly.lan() && SignalChannel::NostrOnly.nostr());

    assert_eq!(channel_readiness(SignalChannel::LanOnly), EndpointReadiness::LanDirect);
    assert_eq!(channel_readiness(SignalChannel::NostrOnly), EndpointReadiness::RelayOnline);
    assert_eq!(channel_readiness(SignalChannel::LanThenNostr), EndpointReadiness::DirectAddr);
    assert_eq!(SignalChannel::default(), SignalChannel::LanThenNostr);
}

#[test]
fn an_endpoint_that_never_came_up_is_usable_only_where_a_relay_is_preferred() {
    assert!(endpoint_usable(EndpointReadiness::LanDirect, true).is_ok());
    assert!(endpoint_usable(EndpointReadiness::RelayPreferred, false).is_ok());
    assert!(endpoint_usable(EndpointReadiness::LanDirect, false).is_err());
    assert!(endpoint_usable(EndpointReadiness::RelayOnline, false).is_err());
}
