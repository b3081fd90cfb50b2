//! Finding the other device: which channel is asked when, and what a dialer reports
//! where none answers.
//!
//! The host publishes wherever it can, and only the dialer falls back: the local
//! network first, since it answers in well under a second where the peer is there, and
//! the relays only where that found nothing.

use vstd::prelude::*;
use vstd::string::*;

use crate::net::SignalChannel;

verus! {

/// What one channel's lookup came to.
pub enum Lookup<T> {
    /// The channel was not asked.
    NotAsked,
    Found(T),
    /// The channel looked and cleanly found nothing.
    Missing,
    /// The channel could not look.
    Failed(String),
}

/// Whether a search over `channel` asks the local network.
pub open spec fn lan_asked(channel: SignalChannel) -> bool {
    channel != SignalChannel::NostrOnly
}

/// Whether it asks the relays, after the local network came to `lan`.
pub open spec fn relays_asked<T>(channel: SignalChannel, lan: Lookup<T>) -> bool {
    channel != SignalChannel::LanOnly && !(lan is Found)
}

/// What a search comes to: what was found, nearest first, or what is reported.
pub open spec fn search_result<T>(
    lan: Lookup<T>,
    relays: Lookup<T>,
    lan_context: Seq<char>,
    relay_context: Seq<char>,
    miss: Seq<char>,
) -> Result<T, Seq<char>> {
    match (lan, relays) {
        (Lookup::Found(t), _) => Ok(t),
        (_, Lookup::Found(t)) => Ok(t),
        _ => match search_error(lan, relays, lan_context, relay_context) {
            Some(e) => Err(e),
            None => Err(miss),
        },
    }
}

/// A search's outcome, its report taken by its text.
pub open spec fn result_view<T>(r: Result<T, String>) -> Result<T, Seq<char>> {
    match r {
        Ok(t) => Ok(t),
        Err(e) => Err(e@),
    }
}

/// Whether the local network is asked.
pub fn asks_lan(channel: SignalChannel) -> (r: bool)
    ensures
        r == (channel != SignalChannel::NostrOnly),
        r == lan_asked(channel),
{
    channel.lan()
}

/// Whether the relays are asked, after the local network came to `lan`.
pub fn asks_relays<T>(channel: SignalChannel, lan: &Lookup<T>) -> (r: bool)
    ensures
        r == (channel != SignalChannel::LanOnly && !(*lan is Found)),
        r == relays_asked(channel, *lan),
{
    match lan {
        Lookup::Found(_) => false,
        _ => channel.nostr(),
    }
}

/// The error that a search ends with, if it ends with one rather than with a plain
/// miss. A channel that looked and cleanly found nothing answers the question, so an error
/// is reported only where no channel that was asked could look; of two failures it is the
/// first.
pub open spec fn search_error<T>(
    lan: Lookup<T>,
    relays: Lookup<T>,
    lan_context: Seq<char>,
    relay_context: Seq<char>,
) -> Option<Seq<char>> {
    match (lan, relays) {
        (Lookup::Failed(l), Lookup::Failed(_)) => Some(lan_context + ": "@ + l@),
        (Lookup::Failed(l), Lookup::NotAsked) => Some(lan_context + ": "@ + l@),
        (Lookup::NotAsked, Lookup::Failed(e)) => Some(relay_context + ": "@ + e@),
        _ => None,
    }
}

/// Concludes a search from what each channel came to. `miss` is what a plain miss is
/// reported as.
fn conclude<T>(
    lan: Lookup<T>,
    relays: Lookup<T>,
    lan_context: &str,
    relay_context: &str,
    miss: &str,
) -> (r: Result<T, String>)
    ensures
        match (lan, relays) {
            (Lookup::Found(t), _) => r == Ok::<T, String>(t),
            (_, Lookup::Found(t)) => r == Ok::<T, String>(t),
            _ => r is Err && r->Err_0@ == match search_error(
                lan,
                relays,
                lan_context@,
                relay_context@,
            ) {
                Some(e) => e,
                None => miss@,
            },
        },
{
    let (held, looked): (Option<String>, bool) = match lan {
        Lookup::Found(t) => return Ok(t),
        Lookup::Failed(e) => (Some(in_context(lan_context, e.as_str())), false),
        Lookup::Missing => (None, true),
        Lookup::NotAsked => (None, false),
    };
    let error: Option<String> = match relays {
        Lookup::Found(t) => return Ok(t),
        Lookup::Missing => None,
        Lookup::Failed(e) => match held {
            Some(first) => Some(first),
            None => if looked {
                None
            } else {
                Some(in_context(relay_context, e.as_str()))
            },
        },
        Lookup::NotAsked => held,
    };
    match error {
        Some(e) => Err(e),
        None => Err(miss.to_owned()),
    }
}

fn in_context(context: &str, error: &str) -> (r: String)
    ensures
        r@ == context@ + ": "@ + error@,
{
    let mut out = context.to_owned();
    out.append(": ");
    out.append(error);
    out
}

/// What is reported where the selected peer hosts nowhere.
pub open spec fn hosting_miss(channel: SignalChannel) -> Seq<char> {
    match channel {
        SignalChannel::LanOnly => "The selected peer is not hosting on this network — press Start on that device, and check both devices are on the same network"@,
        _ => "The selected peer is not hosting a connection — press Start on that device"@,
    }
}

/// Concludes the search for a trusted peer's live session.
pub fn resolve_hosting<T>(channel: SignalChannel, lan: Lookup<T>, relays: Lookup<T>) -> (r: Result<
    T,
    String,
>)
    ensures
        match (lan, relays) {
            (Lookup::Found(t), _) => r == Ok::<T, String>(t),
            (_, Lookup::Found(t)) => r == Ok::<T, String>(t),
            _ => r is Err && r->Err_0@ == match search_error(
                lan,
                relays,
                "LAN hosting lookup failed"@,
                "nostr hosting lookup failed"@,
            ) {
                Some(e) => e,
                None => hosting_miss(channel),
            },
        },
        result_view(r) == search_result(
            lan,
            relays,
            "LAN hosting lookup failed"@,
            "nostr hosting lookup failed"@,
            hosting_miss(channel),
        ),
{
    let miss = match channel {
        SignalChannel::LanOnly => "The selected peer is not hosting on this network — press Start on that device, and check both devices are on the same network",
        _ => "The selected peer is not hosting a connection — press Start on that device",
    };
    conclude(lan, relays, "LAN hosting lookup failed", "nostr hosting lookup failed", miss)
}

/// What is reported where no device shows the typed PIN, phrased for what the user can
/// fix on the channel.
pub open spec fn card_setup_miss(channel: SignalChannel, typed_ip: bool) -> Seq<char> {
    match channel {
        SignalChannel::LanOnly => if typed_ip {
            "no device answered for that PIN at that IP — check the address shown on the other device and that the code (it refreshes every 60s) matches"@
        } else {
            "no device found for that PIN on this network — both devices must be on the same network, and the code refreshes every 60s"@
        },
        SignalChannel::NostrOnly => "no device found for that PIN on the relays — check the current code on the other device (it refreshes every 60s)"@,
        SignalChannel::LanThenNostr => "no device found for that PIN, on this network or through the relays — check the current code on the other device (it refreshes every 60s)"@,
    }
}

/// Concludes the search for the device that shows the typed PIN. `typed_ip` says
/// whether the user typed the host's address.
pub fn resolve_card_setup<T>(
    channel: SignalChannel,
    typed_ip: bool,
    lan: Lookup<T>,
    relays: Lookup<T>,
) -> (r: Result<T, String>)
    ensures
        match (lan, relays) {
            (Lookup::Found(t), _) => r == Ok::<T, String>(t),
            (_, Lookup::Found(t)) => r == Ok::<T, String>(t),
            _ => r is Err && r->Err_0@ == match search_error(
                lan,
                relays,
                "LAN PIN lookup failed"@,
                "nostr PIN lookup failed"@,
            ) {
                Some(e) => e,
                None => card_setup_miss(channel, typed_ip),
            },
        },
        result_view(r) == search_result(
            lan,
            relays,
            "LAN PIN lookup failed"@,
            "nostr PIN lookup failed"@,
            card_setup_miss(channel, typed_ip),
        ),
{
    let miss = match channel {
        SignalChannel::LanOnly => if typed_ip {
            "no device answered for that PIN at that IP — check the address shown on the other device and that the code (it refreshes every 60s) matches"
        } else {
            "no device found for that PIN on this network — both devices must be on the same network, and the code refreshes every 60s"
        },
        SignalChannel::NostrOnly => "no device found for that PIN on the relays — check the current code on the other device (it refreshes every 60s)",
        SignalChannel::LanThenNostr => "no device found for that PIN, on this network or through the relays — check the current code on the other device (it refreshes every 60s)",
    };
    conclude(lan, relays, "LAN PIN lookup failed", "nostr PIN lookup failed", miss)
}

/// A clean miss on either channel ends in the plain miss, whatever became of the other.
pub proof fn a_clean_miss_is_the_answer<T>(
    lan: Lookup<T>,
    relays: Lookup<T>,
    lan_context: Seq<char>,
    relay_context: Seq<char>,
)
    requires
        lan is Missing || relays is Missing,
    ensures
        search_error(lan, relays, lan_context, relay_context) is None,
{
}

/// An error is reported only where no channel that was asked could look: some channel
/// was asked, and each one that was failed.
pub proof fn errors_mean_that_no_channel_looked<T>(
    lan: Lookup<T>,
    relays: Lookup<T>,
    lan_context: Seq<char>,
    relay_context: Seq<char>,
)
    ensures
        search_error(lan, relays, lan_context, relay_context) is Some <==> {
            &&& lan is Failed || lan is NotAsked
            &&& relays is Failed || relays is NotAsked
            &&& lan is Failed || relays is Failed
        },
{
}

/// Whoever is found is returned: on the local network first, and else through the relays.
pub proof fn whoever_is_found_is_returned<T>(
    lan: Lookup<T>,
    relays: Lookup<T>,
    lan_context: Seq<char>,
    relay_context: Seq<char>,
    miss: Seq<char>,
    t: T,
)
    ensures
        lan == Lookup::Found(t) ==> search_result(lan, relays, lan_context, relay_context, miss)
            == Ok::<T, Seq<char>>(t),
        !(lan is Found) && relays == Lookup::Found(t) ==> search_result(
            lan,
            relays,
            lan_context,
            relay_context,
            miss,
        ) == Ok::<T, Seq<char>>(t),
        search_result(lan, relays, lan_context, relay_context, miss) is Ok <==> lan is Found
            || relays is Found,
{
}

/// A search that finds nobody says why: the plain miss where any channel could look, the
/// failure of the local network where that was asked and none could, and else that of the
/// relays.
pub proof fn a_search_says_why_it_failed<T>(
    lan: Lookup<T>,
    relays: Lookup<T>,
    lan_context: Seq<char>,
    relay_context: Seq<char>,
    miss: Seq<char>,
)
    requires
        !(lan is Found) && !(relays is Found),
    ensures
        search_result(lan, relays, lan_context, relay_context, miss) == Err::<T, Seq<char>>(
            if lan is Missing || relays is Missing || (lan is NotAsked && relays is NotAsked) {
                miss
            } else if lan is Failed {
                lan_context + ": "@ + lan->Failed_0@
            } else {
                relay_context + ": "@ + relays->Failed_0@
            },
        ),
{
}

/// No channel in use is left out: the local network is asked unless only the relays are
/// used, and the relays are asked unless only the local network is used or it has found the
/// peer; a failure or a miss there stops nothing.
pub proof fn every_channel_in_use_is_asked<T>(lan: Lookup<T>)
    ensures
        lan_asked(SignalChannel::LanOnly) && lan_asked(SignalChannel::LanThenNostr),
        !lan_asked(SignalChannel::NostrOnly),
        !relays_asked(SignalChannel::LanOnly, lan),
        relays_asked(SignalChannel::LanThenNostr, lan) <==> lan is NotAsked || lan is Missing || lan
            is Failed,
        relays_asked(SignalChannel::NostrOnly, Lookup::<T>::NotAsked),
{
}

/// A search that misses names where it looked: this network alone, the relays alone, or
/// both.
pub proof fn a_miss_names_where_it_looked(typed_ip: bool)
    ensures
        hosting_miss(SignalChannel::LanOnly)
            == "The selected peer is not hosting on this network — press Start on that device, and check both devices are on the same network"@,
        hosting_miss(SignalChannel::NostrOnly) == hosting_miss(SignalChannel::LanThenNostr),
        hosting_miss(SignalChannel::NostrOnly)
            == "The selected peer is not hosting a connection — press Start on that device"@,
        card_setup_miss(SignalChannel::LanOnly, true)
            == "no device answered for that PIN at that IP — check the address shown on the other device and that the code (it refreshes every 60s) matches"@,
        card_setup_miss(SignalChannel::LanOnly, false)
            == "no device found for that PIN on this network — both devices must be on the same network, and the code refreshes every 60s"@,
        card_setup_miss(SignalChannel::NostrOnly, typed_ip)
            == "no device found for that PIN on the relays — check the current code on the other device (it refreshes every 60s)"@,
        card_setup_miss(SignalChannel::LanThenNostr, typed_ip)
            == "no device found for that PIN, on this network or through the relays — check the current code on the other device (it refreshes every 60s)"@,
{
}

} // verus!
