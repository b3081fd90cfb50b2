//! What a transport endpoint waits for, and how a connection's paths are shown.

use vstd::prelude::*;
use vstd::string::*;

use crate::net::SignalChannel;

verus! {

/// Seconds that an endpoint may take to come online, and a connect attempt to finish.
pub const CONNECT_TIMEOUT_SECS: u64 = 10;

/// Seconds between keep-alives on an idle connection.
pub const QUIC_KEEP_ALIVE_INTERVAL_SECS: u64 = 15;

/// Seconds without activity after which a connection counts as dead.
pub const QUIC_IDLE_TIMEOUT_SECS: u64 = 30;

/// The protocol identifier that both ends advertise.
pub const ALPN: &'static str = "duocb/1";

/// What a freshly bound endpoint waits for before the session proceeds, and which
/// transport stack it is built with.
#[derive(Clone, Copy, Debug, PartialEq, Eq, Structural)]
pub enum EndpointReadiness {
    /// Wait for the home relay and fail without it.
    RelayOnline,
    /// Prefer the home relay but go on without it.
    RelayPreferred,
    /// Wait for a first direct address on the full transport stack, so that pairing on
    /// the local network is not held up by a relay it may never need.
    DirectAddr,
    /// Wait for a first direct address, without relays and without internet-backed
    /// discovery.
    LanDirect,
}

impl EndpointReadiness {
    /// Whether the endpoint uses relays and internet-backed discovery.
    pub fn uses_internet(self) -> (r: bool)
        ensures
            r == (self != EndpointReadiness::LanDirect),
    {
        match self {
            EndpointReadiness::LanDirect => false,
            _ => true,
        }
    }

    /// Whether the endpoint waits for its home relay, rather than for a direct
    /// address.
    pub fn waits_for_relay(self) -> (r: bool)
        ensures
            r == (self == EndpointReadiness::RelayOnline || self
                == EndpointReadiness::RelayPreferred),
    {
        match self {
            EndpointReadiness::RelayOnline => true,
            EndpointReadiness::RelayPreferred => true,
            _ => false,
        }
    }
}

/// What an endpoint waits for on a channel.
pub open spec fn readiness_on(channel: SignalChannel) -> EndpointReadiness {
    match channel {
        SignalChannel::LanOnly => EndpointReadiness::LanDirect,
        SignalChannel::NostrOnly => EndpointReadiness::RelayOnline,
        SignalChannel::LanThenNostr => EndpointReadiness::DirectAddr,
    }
}

/// Whether an endpoint can be used, where `ready` says whether what it waited for came.
pub open spec fn usable(readiness: EndpointReadiness, ready: bool) -> bool {
    ready || readiness == EndpointReadiness::RelayPreferred
}

/// What an endpoint waits for on a channel: local-only must not wait on a relay,
/// relay-only has to have one, and the default comes up on a local address alone.
pub fn channel_readiness(channel: SignalChannel) -> (r: EndpointReadiness)
    ensures
        r == match channel {
            SignalChannel::LanOnly => EndpointReadiness::LanDirect,
            SignalChannel::NostrOnly => EndpointReadiness::RelayOnline,
            SignalChannel::LanThenNostr => EndpointReadiness::DirectAddr,
        },
        r == readiness_on(channel),
{
    match channel {
        SignalChannel::LanOnly => EndpointReadiness::LanDirect,
        SignalChannel::NostrOnly => EndpointReadiness::RelayOnline,
        SignalChannel::LanThenNostr => EndpointReadiness::DirectAddr,
    }
}

/// Judges the wait for an endpoint: `ready` says whether what it waited for came in
/// time. Only a merely preferred relay may be missing.
pub fn endpoint_usable(readiness: EndpointReadiness, ready: bool) -> (r: Result<(), String>)
    ensures
        match r {
            Ok(()) => ready || readiness == EndpointReadiness::RelayPreferred,
            Err(e) => !ready && readiness != EndpointReadiness::RelayPreferred && e@
                == "Endpoint failed to come online after 10s - check network connectivity"@,
        },
        r is Ok <==> usable(readiness, ready),
{
    if ready {
        return Ok(());
    }
    match readiness {
        EndpointReadiness::RelayPreferred => Ok(()),
        _ => Err("Endpoint failed to come online after 10s - check network connectivity".to_owned()),
    }
}

/// Whether a connection path is a direct route or goes via a relay.
#[derive(Clone, Copy, Debug, PartialEq, Eq, Structural)]
pub enum ConnPathKind {
    Direct,
    Relay,
    Other,
}

/// A snapshot of one path of a connection.
pub struct ConnPath {
    pub kind: ConnPathKind,
    /// Human line like `Direct 1.2.3.4:52186 (rtt 1ms)`.
    pub display: String,
    /// Whether traffic currently goes over this path.
    pub selected: bool,
}

/// What a [`ConnPath`] says.
pub struct ConnPathView {
    pub kind: ConnPathKind,
    pub display: Seq<char>,
    pub selected: bool,
}

impl View for ConnPath {
    type V = ConnPathView;

    open spec fn view(&self) -> ConnPathView {
        ConnPathView { kind: self.kind, display: self.display@, selected: self.selected }
    }
}

/// The views of a list of paths.
pub open spec fn path_views(paths: Seq<ConnPath>) -> Seq<ConnPathView> {
    paths.map_values(|p: ConnPath| p@)
}

/// A transport path as the transport reports it: its kind, the text of its remote
/// address, the text of its round-trip time, and whether it is selected.
pub struct RawPath {
    pub kind: ConnPathKind,
    pub remote: String,
    pub rtt: String,
    pub selected: bool,
}

/// What a [`RawPath`] says.
pub struct RawPathView {
    pub kind: ConnPathKind,
    pub remote: Seq<char>,
    pub rtt: Seq<char>,
    pub selected: bool,
}

impl View for RawPath {
    type V = RawPathView;

    open spec fn view(&self) -> RawPathView {
        RawPathView {
            kind: self.kind,
            remote: self.remote@,
            rtt: self.rtt@,
            selected: self.selected,
        }
    }
}

/// The views of a list of reported paths.
pub open spec fn raw_views(paths: Seq<RawPath>) -> Seq<RawPathView> {
    paths.map_values(|p: RawPath| p@)
}

/// The display line of a path: what it is, where it leads, and its round-trip time.
pub open spec fn path_line(p: RawPathView) -> Seq<char> {
    (match p.kind {
        ConnPathKind::Direct => "Direct "@,
        ConnPathKind::Relay => "Relay "@,
        ConnPathKind::Other => ""@,
    }) + p.remote + " (rtt "@ + p.rtt + ")"@
}

/// The snapshot of a path.
pub open spec fn path_snapshot(p: RawPathView) -> ConnPathView {
    ConnPathView { kind: p.kind, display: path_line(p), selected: p.selected }
}

/// The lines of the selected paths, in order.
pub open spec fn selected_lines(paths: Seq<RawPathView>) -> Seq<Seq<char>>
    decreases paths.len(),
{
    if paths.len() == 0 {
        Seq::empty()
    } else if paths.last().selected {
        selected_lines(paths.drop_last()).push(path_line(paths.last()))
    } else {
        selected_lines(paths.drop_last())
    }
}

/// The lines, separated by a comma and a space.
pub open spec fn comma_joined(lines: Seq<Seq<char>>) -> Seq<char>
    decreases lines.len(),
{
    if lines.len() == 0 {
        Seq::empty()
    } else if lines.len() == 1 {
        lines[0]
    } else {
        comma_joined(lines.drop_last()) + ", "@ + lines.last()
    }
}

/// The log line of a connection's paths.
pub open spec fn paths_line(paths: Seq<RawPathView>) -> Seq<char> {
    if paths.len() == 0 {
        "establishing..."@
    } else if selected_lines(paths).len() == 0 {
        "no selected path"@
    } else {
        comma_joined(selected_lines(paths))
    }
}

/// The remote addresses of the selected paths, in order: what a change of route is
/// told by, leaving out the round-trip times.
pub open spec fn selected_remotes(paths: Seq<RawPathView>) -> Seq<Seq<char>>
    decreases paths.len(),
{
    if paths.len() == 0 {
        Seq::empty()
    } else if paths.last().selected {
        selected_remotes(paths.drop_last()).push(paths.last().remote)
    } else {
        selected_remotes(paths.drop_last())
    }
}

/// Renders the display line of a path.
pub fn describe_path(path: &RawPath) -> (r: String)
    ensures
        r@ == path_line(path@),
{
    let mut out = match path.kind {
        ConnPathKind::Direct => "Direct ".to_owned(),
        ConnPathKind::Relay => "Relay ".to_owned(),
        ConnPathKind::Other => "".to_owned(),
    };
    out.append(path.remote.as_str());
    out.append(" (rtt ");
    out.append(path.rtt.as_str());
    out.append(")");
    out
}

/// Snapshots the paths of a connection: all of them, not just the selected ones.
pub fn snapshot_paths(paths: &Vec<RawPath>) -> (r: Vec<ConnPath>)
    ensures
        path_views(r@) == raw_views(paths@).map_values(|p: RawPathView| path_snapshot(p)),
{
    let mut out: Vec<ConnPath> = Vec::new();
    let mut i: usize = 0;
    while i < paths.len()
        invariant
            i <= paths@.len(),
            out@.len() == i,
            forall|j: int| 0 <= j < i ==> (#[trigger] out@[j])@ == path_snapshot(paths@[j]@),
        decreases paths@.len() - i,
    {
        out.push(
            ConnPath {
                kind: paths[i].kind,
                display: describe_path(&paths[i]),
                selected: paths[i].selected,
            },
        );
        i += 1;
    }
    assert(path_views(out@) =~= raw_views(paths@).map_values(
        |p: RawPathView| path_snapshot(p),
    ));
    out
}

/// Renders the selected paths of a connection for a log.
pub fn format_paths(paths: &Vec<RawPath>) -> (r: String)
    ensures
        r@ == paths_line(raw_views(paths@)),
{
    if paths.len() == 0 {
        return "establishing...".to_owned();
    }
    let ghost all = raw_views(paths@);
    let mut out = String::new();
    let mut found = false;
    let mut i: usize = 0;
    while i < paths.len()
        invariant
            i <= paths@.len(),
            all == raw_views(paths@),
            found == (selected_lines(all.take(i as int)).len() > 0),
            out@ == comma_joined(selected_lines(all.take(i as int))),
        decreases paths@.len() - i,
    {
        let ghost before = all.take(i as int);
        let ghost after = all.take(i + 1);
        assert(after.drop_last() =~= before);
        if paths[i].selected {
            if found {
                out.append(", ");
            }
            out.append(describe_path(&paths[i]).as_str());
            proof {
                let lines = selected_lines(after);
                assert(lines.drop_last() =~= selected_lines(before));
                assert(out@ =~= comma_joined(lines));
            }
            found = true;
        }
        i += 1;
    }
    assert(all.take(i as int) =~= all);
    if found {
        out
    } else {
        "no selected path".to_owned()
    }
}

/// The key of a connection's selected routes: whether there are no paths at all, and
/// the remote addresses of the selected ones. A watcher logs only when it changes.
pub fn paths_key(paths: &Vec<RawPath>) -> (r: (bool, Vec<String>))
    ensures
        r.0 == (paths@.len() == 0),
        r.1@.map_values(|s: String| s@) == selected_remotes(raw_views(paths@)),
{
    let ghost all = raw_views(paths@);
    let mut out: Vec<String> = Vec::new();
    let mut i: usize = 0;
    assert(out@.map_values(|s: String| s@) =~= selected_remotes(all.take(0)));
    while i < paths.len()
        invariant
            i <= paths@.len(),
            all == raw_views(paths@),
            out@.map_values(|s: String| s@) == selected_remotes(all.take(i as int)),
        decreases paths@.len() - i,
    {
        proof {
            assert(all.take(i + 1).drop_last() =~= all.take(i as int));
        }
        if paths[i].selected {
            let ghost before = out@.map_values(|s: String| s@);
            out.push(paths[i].remote.clone());
            assert(out@.map_values(|s: String| s@) =~= before.push(paths@[i as int].remote@));
        }
        i += 1;
    }
    assert(all.take(i as int) =~= all);
    (paths.len() == 0, out)
}

/// Two readings that differ only in round-trip times have the same key.
pub proof fn round_trip_times_do_not_change_the_key(a: Seq<RawPathView>, b: Seq<RawPathView>)
    requires
        a.len() == b.len(),
        forall|i: int|
            0 <= i < a.len() ==> (#[trigger] a[i]).remote == b[i].remote && a[i].selected
                == b[i].selected,
    ensures
        selected_remotes(a) == selected_remotes(b),
    decreases a.len(),
{
    if a.len() > 0 {
        round_trip_times_do_not_change_the_key(a.drop_last(), b.drop_last());
        assert(a.last().remote == b.last().remote && a.last().selected == b.last().selected) by {
            assert(a[a.len() - 1].remote == b[a.len() - 1].remote);
        }
    }
}

/// A local session never uses the internet and waits for no relay, a relay session waits
/// for its relay, and one that may use either waits for a local address alone. Whatever was
/// waited for and came makes the endpoint usable; without it only a preferred relay does.
pub proof fn endpoints_wait_for_what_their_channel_needs(readiness: EndpointReadiness)
    ensures
        readiness_on(SignalChannel::LanOnly) == EndpointReadiness::LanDirect,
        readiness_on(SignalChannel::NostrOnly) == EndpointReadiness::RelayOnline,
        readiness_on(SignalChannel::LanThenNostr) == EndpointReadiness::DirectAddr,
        usable(readiness, true),
        usable(readiness, false) <==> readiness is RelayPreferred,
{
}

/// The log names the selected paths, all of them and in their order; and a change of route
/// is told by exactly their remote addresses.
pub proof fn selected_paths_are_all_named(paths: Seq<RawPathView>)
    ensures
        selected_lines(paths) == paths.filter(|p: RawPathView| p.selected).map_values(
            |p: RawPathView| path_line(p),
        ),
        selected_remotes(paths) == paths.filter(|p: RawPathView| p.selected).map_values(
            |p: RawPathView| p.remote,
        ),
    decreases paths.len(),
{
    reveal(Seq::filter);
    if paths.len() > 0 {
        selected_paths_are_all_named(paths.drop_last());
    }
    assert(selected_lines(paths) =~= paths.filter(|p: RawPathView| p.selected).map_values(
        |p: RawPathView| path_line(p),
    ));
    assert(selected_remotes(paths) =~= paths.filter(|p: RawPathView| p.selected).map_values(
        |p: RawPathView| p.remote,
    ));
}

/// A path is shown as what it is, with where it leads and its round-trip time.
pub proof fn paths_are_shown_as_they_are(p: RawPathView)
    ensures
        path_snapshot(p).kind == p.kind,
        path_snapshot(p).selected == p.selected,
        p.kind is Direct ==> path_snapshot(p).display == "Direct "@ + p.remote + " (rtt "@ + p.rtt
            + ")"@,
        p.kind is Relay ==> path_snapshot(p).display == "Relay "@ + p.remote + " (rtt "@ + p.rtt
            + ")"@,
        p.kind is Other ==> path_snapshot(p).display == p.remote + " (rtt "@ + p.rtt + ")"@,
{
    reveal_strlit("");
    if p.kind is Other {
        assert(""@ + p.remote =~= p.remote);
    }
}

/// Lines are joined by a comma and a space, none left out: the log of more paths is the log
/// of the first ones, a separator and the rest.
pub proof fn joined_lines_keep_every_line(lines: Seq<Seq<char>>, line: Seq<char>)
    ensures
        comma_joined(seq![line]) == line,
        lines.len() > 0 ==> comma_joined(lines.push(line)) == comma_joined(lines) + ", "@ + line,
{
    assert(lines.push(line).drop_last() =~= lines);
}

/// A connection without paths is being established; one without a selected path says so.
pub proof fn an_unrouted_connection_says_so(paths: Seq<RawPathView>)
    ensures
        paths.len() == 0 ==> paths_line(paths) == "establishing..."@,
        paths.len() > 0 && (forall|i: int|
            0 <= i < paths.len() ==> !(#[trigger] paths[i]).selected) ==> paths_line(paths)
            == "no selected path"@,
        paths.len() > 0 && (exists|i: int|
            0 <= i < paths.len() && (#[trigger] paths[i]).selected) ==> paths_line(paths)
            == comma_joined(selected_lines(paths)),
{
    some_line_for_a_selected_path(paths);
}

proof fn some_line_for_a_selected_path(paths: Seq<RawPathView>)
    ensures
        selected_lines(paths).len() > 0 <==> exists|i: int|
            0 <= i < paths.len() && (#[trigger] paths[i]).selected,
    decreases paths.len(),
{
    if paths.len() > 0 {
        let rest = paths.drop_last();
        some_line_for_a_selected_path(rest);
        if exists|i: int| 0 <= i < rest.len() && (#[trigger] rest[i]).selected {
            let i = choose|i: int| 0 <= i < rest.len() && (#[trigger] rest[i]).selected;
            assert(paths[i].selected);
        }
        if exists|i: int| 0 <= i < paths.len() && (#[trigger] paths[i]).selected {
            let i = choose|i: int| 0 <= i < paths.len() && (#[trigger] paths[i]).selected;
            if i < rest.len() {
                assert(rest[i].selected);
            }
        }
        assert(paths[paths.len() - 1] == paths.last());
    }
}

/// The views of paths stand in the order of the paths, one for one, each with all it says.
pub proof fn path_views_keep_every_path(paths: Seq<ConnPath>, raw: Seq<RawPath>, i: int)
    ensures
        path_views(paths).len() == paths.len(),
        0 <= i < paths.len() ==> path_views(paths)[i] == (ConnPathView {
            kind: paths[i].kind,
            display: paths[i].display@,
            selected: paths[i].selected,
        }),
        raw_views(raw).len() == raw.len(),
        0 <= i < raw.len() ==> raw_views(raw)[i] == (RawPathView {
            kind: raw[i].kind,
            remote: raw[i].remote@,
            rtt: raw[i].rtt@,
            selected: raw[i].selected,
        }),
{
}

} // verus!
