//! Looking records up on the local network: which resolved services are the wanted one,
//! and the bookkeeping of a browse that learns names, records and addresses one by one.

use vstd::prelude::*;
use vstd::string::*;

use crate::addr::IpAddr;
use crate::auth::{Identity, PublicKey};
use crate::hosting_record::{decrypt, lan_instance, lan_label, recorded_node};
use crate::json::text_view;
use crate::lan::dnssd::{
    advert_attributes, all_fit, attribute, attribute_fits, attribute_text, attribute_views,
    attributes, instance_in, instance_of, txt_bytes, txt_records_read_back, value_of,
};
use crate::lan::{assemble_addrs, assembled, instance_label, instance_name, PinFound};
use crate::node::{node_view, NodeId};
use crate::pin_record::{decrypt_pin_payload, rendezvous_node};
use crate::text::{
    decimal, encoded_length_bounds, lower_char, lowercase, lowered, parse_short, parsed_short,
    same_text, short_numeral_parses_back, texts,
};

verus! {

// ---------------------------------------------------------------------------
// Recognising a record
// ---------------------------------------------------------------------------

/// The last of the first `n` candidate keys whose record has the given label.
pub open spec fn labelled(candidates: Seq<Identity>, label: Seq<char>, n: nat) -> Option<int>
    decreases n,
{
    if n == 0 {
        None
    } else if instance_label(candidates[n - 1].public_bytes()) == label {
        Some(n - 1)
    } else {
        labelled(candidates, label, (n - 1) as nat)
    }
}

/// The node in a PIN record with the given label: the candidate key that the label
/// belongs to has to read it.
pub open spec fn pin_record_node(
    candidates: Seq<Identity>,
    label: Seq<char>,
    content: Seq<char>,
) -> Option<Seq<u8>> {
    match labelled(candidates, label, candidates.len()) {
        Some(i) => rendezvous_node(
            candidates[i].secret_bytes(),
            candidates[i].public_bytes(),
            content,
        ),
        None => None,
    }
}

/// Recognises a PIN record: its label picks the candidate key, and the key has to read
/// the record. Records of other devices are passed over.
pub fn decode_pin_record(candidates: &Vec<Identity>, label: &str, content: &str) -> (r: Option<
    NodeId,
>)
    ensures
        node_view(r) == pin_record_node(candidates@, label@, content@),
{
    let mut n: usize = candidates.len();
    while n > 0
        invariant
            n <= candidates@.len(),
            labelled(candidates@, label@, candidates@.len()) == labelled(
                candidates@,
                label@,
                n as nat,
            ),
        decreases n,
    {
        let key: PublicKey = candidates[n - 1].public_key();
        if same_text(instance_name(&key).as_str(), label) {
            return decrypt_pin_payload(&candidates[n - 1], content);
        }
        n -= 1;
    }
    None
}

/// The node in a hosting record with the given label: the label has to be that of the
/// host and this identity, and the identity has to read the record.
pub open spec fn hosting_record_node(
    secret: Seq<u8>,
    public: Seq<u8>,
    host: Seq<u8>,
    label: Seq<char>,
    content: Seq<char>,
) -> Option<Seq<u8>> {
    if label == lan_label(host, public) {
        recorded_node(secret, host, content)
    } else {
        None
    }
}

/// Recognises the record that `host` advertises for this identity.
pub fn decode_hosting_record(identity: &Identity, host: PublicKey, label: &str, content: &str) -> (r:
    Option<NodeId>)
    ensures
        node_view(r) == hosting_record_node(
            identity.secret_bytes(),
            identity.public_bytes(),
            host@,
            label@,
            content@,
        ),
{
    let own: String = lan_instance(host, identity.public_key());
    if same_text(own.as_str(), label) {
        decrypt(identity, host, content)
    } else {
        None
    }
}

/// The IPv6 port that an attribute names; one that is no port counts as none.
pub open spec fn port_attribute(text: Option<Seq<char>>) -> Option<u16> {
    match text {
        Some(text) => parsed_short(text),
        None => None,
    }
}

/// A service that answered a browse.
pub struct Resolved {
    /// The label of the instance, in lower case.
    pub instance: String,
    /// The encrypted record.
    pub content: String,
    pub port6: Option<u16>,
}

/// Reads a resolved service of the given type: its label, its record and its IPv6 port.
/// One of another type or without a record is passed over.
pub fn read_resolved(
    service_type: &str,
    fullname: &str,
    content: Option<String>,
    port6: Option<String>,
) -> (r: Option<Resolved>)
    ensures
        match r {
            Some(resolved) => {
                &&& instance_of(fullname@, service_type@) == Some(resolved.instance@)
                &&& text_view(content) == Some(resolved.content@)
                &&& resolved.port6 == port_attribute(text_view(port6))
            },
            None => instance_of(fullname@, service_type@) is None || content is None,
        },
{
    let instance: String = match instance_in(fullname, service_type) {
        Some(instance) => instance,
        None => return None,
    };
    let content: String = match content {
        Some(content) => content,
        None => return None,
    };
    let port6: Option<u16> = match port6 {
        Some(text) => parse_short(text.as_str()),
        None => None,
    };
    Some(Resolved { instance, content, port6 })
}

/// What one device advertises, another resolves: the record comes back whole from the TXT
/// record, with the IPv6 port where there is one, and the label from the full name.
pub proof fn adverts_are_resolved(
    label: Seq<char>,
    service_type: Seq<char>,
    content: Seq<char>,
    port6: Option<u16>,
)
    requires
        lowered(label) == label,
        lowered(service_type) == service_type,
        attribute_fits("e"@, content),
    ensures
        all_fit(advert_attributes(content, port6)),
        ({
            let list = attributes(txt_bytes(advert_attributes(content, port6)));
            &&& value_of(list, "e"@) == Some(content)
            &&& port_attribute(value_of(list, "p6"@)) == port6
        }),
        instance_of(label + seq!['.'] + service_type, service_type) == Some(label),
{
    let list = advert_attributes(content, port6);
    reveal_strlit("e");
    reveal_strlit("p6");
    assert("e"@.len() != "p6"@.len());
    if let Some(port) = port6 {
        let text = attribute_text("p6"@, decimal(port as nat));
        reveal_with_fuel(decimal, 6);
        encoded_length_bounds(text);
        short_numeral_parses_back(port);
        assert(list.drop_last() =~= seq![("e"@, content)]);
    }
    txt_records_read_back(list);
    reveal_with_fuel(value_of, 3);
    let full = label + seq!['.'] + service_type;
    assert(lower_char('.') == '.');
    assert forall|i: int| 0 <= i < full.len() implies #[trigger] lowered(full)[i] == full[i] by {
        if i < label.len() {
            assert(lowered(label)[i] == label[i]);
        } else if i > label.len() {
            assert(lowered(service_type)[i - label.len() - 1] == service_type[i - label.len() - 1]);
        }
    }
    assert(lowered(full) =~= full);
    assert(full.take(label.len() as int) =~= label);
    assert(full.skip(label.len() as int) =~= seq!['.'] + service_type);
}

/// A hit: the node that a record names, at the addresses its service resolved to.
pub fn hit(node_id: NodeId, ips: &Vec<IpAddr>, srv_port: u16, port6: Option<u16>) -> (r: PinFound)
    ensures
        r.node_id == node_id,
        r.addrs@ == assembled(ips@, srv_port, port6),
{
    PinFound { node_id, addrs: assemble_addrs(ips, srv_port, port6) }
}

/// A hit that can be dialed at one of its addresses, where nothing else would resolve
/// the node.
pub fn dialable_hit(node_id: NodeId, ips: &Vec<IpAddr>, srv_port: u16, port6: Option<u16>) -> (r:
    Option<PinFound>)
    ensures
        match r {
            Some(found) => found.node_id == node_id && found.addrs@ == assembled(
                ips@,
                srv_port,
                port6,
            ) && found.addrs@.len() > 0,
            None => assembled(ips@, srv_port, port6).len() == 0,
        },
{
    let found: PinFound = hit(node_id, ips, srv_port, port6);
    if found.addrs.len() == 0 {
        None
    } else {
        Some(found)
    }
}

// ---------------------------------------------------------------------------
// Registering
// ---------------------------------------------------------------------------

/// The code by which the system daemon reports that the app lacks the permission to
/// use the local network.
pub const ERR_POLICY_DENIED: i32 = -65570;

/// What a registration came to.
#[derive(Clone, Copy, Debug, PartialEq, Eq, Structural)]
pub enum RegisterVerdict {
    /// The registration stands, or the daemon has said nothing against it.
    Live,
    /// The app lacks the permission; a browse makes the system ask for it.
    Denied,
    /// The daemon refused with a code.
    Failed(i32),
}

/// What a registration came to, by the code that the daemon gave, if it gave one.
pub open spec fn registration(code: Option<i32>) -> RegisterVerdict {
    match code {
        None => RegisterVerdict::Live,
        Some(code) => if code == 0 {
            RegisterVerdict::Live
        } else if code == ERR_POLICY_DENIED {
            RegisterVerdict::Denied
        } else {
            RegisterVerdict::Failed(code)
        },
    }
}

/// Judges the code that the daemon gave, if it gave one in time.
pub fn register_verdict(code: Option<i32>) -> (r: RegisterVerdict)
    ensures
        r == match code {
            None => RegisterVerdict::Live,
            Some(code) => if code == 0 {
                RegisterVerdict::Live
            } else if code == ERR_POLICY_DENIED {
                RegisterVerdict::Denied
            } else {
                RegisterVerdict::Failed(code)
            },
        },
        r == registration(code),
{
    match code {
        None => RegisterVerdict::Live,
        Some(code) => if code == 0 {
            RegisterVerdict::Live
        } else if code == ERR_POLICY_DENIED {
            RegisterVerdict::Denied
        } else {
            RegisterVerdict::Failed(code)
        },
    }
}

// ---------------------------------------------------------------------------
// Browsing
// ---------------------------------------------------------------------------

/// Flag of a callback after which more of them are queued.
pub const FLAG_MORE_COMING: u32 = 1;

/// Flag of a callback that reports an addition.
pub const FLAG_ADD: u32 = 2;

/// How long to collect addresses after the first one, in milliseconds.
pub const ADDR_GRACE_MS: u64 = 700;

/// The part of a lookup that is held back for the addresses, in milliseconds.
pub const ADDR_RESERVE_MS: u64 = 1500;

/// Whether a callback with this error and these flags adds something.
pub open spec fn adds(error: i32, flags: u32) -> bool {
    error == 0 && flags & FLAG_ADD != 0
}

/// What a resolved instance answered.
pub struct Answer {
    /// The label of the instance, in lower case.
    pub instance: String,
    /// The encrypted record.
    pub content: String,
    /// The target of the SRV record.
    pub host: String,
    pub srv_port: u16,
    pub port6: Option<u16>,
}

/// The content of an answer.
pub struct AnswerView {
    pub instance: Seq<char>,
    pub content: Seq<char>,
    pub host: Seq<char>,
    pub srv_port: u16,
    pub port6: Option<u16>,
}

impl View for Answer {
    type V = AnswerView;

    open spec fn view(&self) -> AnswerView {
        AnswerView {
            instance: self.instance@,
            content: self.content@,
            host: self.host@,
            srv_port: self.srv_port,
            port6: self.port6,
        }
    }
}

/// The views of a list of answers.
pub open spec fn answer_views(v: Seq<Answer>) -> Seq<AnswerView> {
    v.map_values(|a: Answer| a@)
}

/// What a resolve has delivered: the SRV target, its port and the TXT attributes.
pub struct Delivered {
    pub host: String,
    pub srv_port: u16,
    pub attributes: Vec<(String, String)>,
}

/// The content of a delivery.
pub struct DeliveredView {
    pub host: Seq<char>,
    pub srv_port: u16,
    pub attributes: Seq<(Seq<char>, Seq<char>)>,
}

impl View for Delivered {
    type V = DeliveredView;

    open spec fn view(&self) -> DeliveredView {
        DeliveredView {
            host: self.host@,
            srv_port: self.srv_port,
            attributes: attribute_views(self.attributes@),
        }
    }
}

/// The answer that a delivery for an instance is, if it carries a record.
pub open spec fn answer_of(instance: Seq<char>, d: DeliveredView) -> Option<AnswerView> {
    match value_of(d.attributes, "e"@) {
        None => None,
        Some(content) => Some(
            AnswerView {
                instance,
                content,
                host: d.host,
                srv_port: d.srv_port,
                port6: port_attribute(value_of(d.attributes, "p6"@)),
            },
        ),
    }
}

/// One resolve under way.
pub struct ResolveView {
    pub instance: Seq<char>,
    pub delivered: Option<DeliveredView>,
}

struct Resolve {
    instance: String,
    delivered: Option<Delivered>,
}

impl View for Resolve {
    type V = ResolveView;

    closed spec fn view(&self) -> ResolveView {
        ResolveView {
            instance: self.instance@,
            delivered: match self.delivered {
                Some(d) => Some(d@),
                None => None,
            },
        }
    }
}

/// The views of a list of resolves.
closed spec fn resolve_views(v: Seq<Resolve>) -> Seq<ResolveView> {
    v.map_values(|r: Resolve| r@)
}

/// The answers that a list of resolves holds, in order.
pub open spec fn answers_in(resolves: Seq<ResolveView>) -> Seq<AnswerView>
    decreases resolves.len(),
{
    if resolves.len() == 0 {
        Seq::empty()
    } else {
        let front = answers_in(resolves.drop_last());
        match resolves.last().delivered {
            None => front,
            Some(d) => match answer_of(resolves.last().instance, d) {
                Some(answer) => front.push(answer),
                None => front,
            },
        }
    }
}

/// The resolves with nothing delivered.
pub open spec fn emptied(resolves: Seq<ResolveView>) -> Seq<ResolveView> {
    resolves.map_values(|r: ResolveView| ResolveView { instance: r.instance, delivered: None })
}

/// A browse: the names it has reported and not yet looked at, the names that are being
/// resolved, and what the resolves have delivered.
pub struct Browse {
    reported: Vec<String>,
    started: Vec<String>,
    resolves: Vec<Resolve>,
}

/// The content of a browse.
pub struct BrowseView {
    pub reported: Seq<Seq<char>>,
    pub started: Seq<Seq<char>>,
    pub resolves: Seq<ResolveView>,
}

impl View for Browse {
    type V = BrowseView;

    closed spec fn view(&self) -> BrowseView {
        BrowseView {
            reported: texts(self.reported@),
            started: texts(self.started@),
            resolves: resolve_views(self.resolves@),
        }
    }
}

/// The names of a list from the first one on that is not being resolved yet.
pub open spec fn pending(reported: Seq<Seq<char>>, started: Seq<Seq<char>>) -> Seq<Seq<char>>
    decreases reported.len(),
{
    if reported.len() > 0 && started.contains(reported[0]) {
        pending(reported.drop_first(), started)
    } else {
        reported
    }
}

/// A browse after a callback.
pub open spec fn after_report(b: BrowseView, error: i32, flags: u32, name: Seq<char>) -> BrowseView {
    BrowseView {
        reported: if adds(error, flags) {
            b.reported.push(name)
        } else {
            b.reported
        },
        ..b
    }
}

/// The name that a browse looks at next, if there is one, and the browse after that.
pub open spec fn after_next(b: BrowseView) -> (Option<Seq<char>>, BrowseView) {
    let rest = pending(b.reported, b.started);
    if rest.len() == 0 {
        (None, BrowseView { reported: rest, ..b })
    } else {
        (Some(rest[0]), BrowseView { reported: rest.drop_first(), ..b })
    }
}

/// A browse after a resolve for a name was started.
pub open spec fn after_start(b: BrowseView, name: Seq<char>) -> BrowseView {
    BrowseView {
        started: b.started.push(name),
        resolves: b.resolves.push(ResolveView { instance: lowered(name), delivered: None }),
        ..b
    }
}

/// A browse after the resolve with a number delivered.
pub open spec fn after_delivery(b: BrowseView, number: int, d: DeliveredView) -> BrowseView {
    BrowseView {
        resolves: b.resolves.update(
            number,
            ResolveView { instance: b.resolves[number].instance, delivered: Some(d) },
        ),
        ..b
    }
}

impl Browse {
    /// A browse that has reported nothing.
    pub fn new() -> (r: Browse)
        ensures
            r@ == (BrowseView {
                reported: Seq::empty(),
                started: Seq::empty(),
                resolves: Seq::empty(),
            }),
    {
        let r = Browse { reported: Vec::new(), started: Vec::new(), resolves: Vec::new() };
        assert(r@.reported =~= Seq::empty());
        assert(r@.started =~= Seq::empty());
        assert(r@.resolves =~= Seq::empty());
        r
    }

    /// Takes a browse callback. Only additions count: a removal cannot give a hit.
    pub fn report(&mut self, error: i32, flags: u32, name: String)
        ensures
            final(self)@ == (BrowseView {
                reported: if adds(error, flags) {
                    old(self)@.reported.push(name@)
                } else {
                    old(self)@.reported
                },
                ..old(self)@
            }),
            final(self)@ == after_report(old(self)@, error, flags, name@),
    {
        if error == 0 && flags & FLAG_ADD != 0 {
            self.reported.push(name);
            assert(self@.reported =~= old(self)@.reported.push(name@));
        }
        assert(self@.started =~= old(self)@.started);
        assert(self@.resolves =~= old(self)@.resolves);
    }

    /// The next reported name that is not being resolved yet. A name that is reported
    /// again, as when an interface changes, starts no second resolve.
    pub fn next_name(&mut self) -> (r: Option<String>)
        ensures
            ({
                let rest = pending(old(self)@.reported, old(self)@.started);
                &&& text_view(r) == if rest.len() == 0 {
                    None
                } else {
                    Some(rest[0])
                }
                &&& final(self)@ == (BrowseView {
                    reported: if rest.len() == 0 {
                        rest
                    } else {
                        rest.drop_first()
                    },
                    ..old(self)@
                })
            }),
            r matches Some(name) ==> !old(self)@.started.contains(name@),
            (text_view(r), final(self)@) == after_next(old(self)@),
    {
        while self.reported.len() > 0
            invariant
                self@.started == old(self)@.started,
                self@.resolves == old(self)@.resolves,
                pending(self@.reported, self@.started) == pending(
                    old(self)@.reported,
                    old(self)@.started,
                ),
            decreases self.reported@.len(),
        {
            let ghost before = self@;
            let name: String = self.reported.remove(0);
            proof {
                assert(before.reported[0] == name@);
                assert(self@.reported =~= before.reported.drop_first());
                assert(self@.started =~= before.started);
                assert(self@.resolves =~= before.resolves);
            }
            if !has_text(&self.started, name.as_str()) {
                assert(pending(before.reported, before.started) == before.reported);
                return Some(name);
            }
        }
        assert(self@.reported =~= Seq::empty());
        None
    }

    /// Notes that a name is being resolved, and gives the number of its resolve.
    pub fn resolve_started(&mut self, name: &str) -> (r: usize)
        ensures
            r == old(self)@.resolves.len(),
            final(self)@ == (BrowseView {
                started: old(self)@.started.push(name@),
                resolves: old(self)@.resolves.push(
                    ResolveView { instance: lowered(name@), delivered: None },
                ),
                ..old(self)@
            }),
            final(self)@ == after_start(old(self)@, name@),
    {
        let r: usize = self.resolves.len();
        self.started.push(name.to_owned());
        self.resolves.push(Resolve { instance: lowercase(name), delivered: None });
        assert(self@.started =~= old(self)@.started.push(name@));
        assert(self@.resolves =~= old(self)@.resolves.push(
            ResolveView { instance: lowered(name@), delivered: None },
        ));
        assert(self@.reported =~= old(self)@.reported);
        r
    }

    /// Takes what the resolve with the given number delivered; a later delivery replaces
    /// an earlier one.
    pub fn deliver(&mut self, number: usize, delivered: Delivered)
        requires
            number < old(self)@.resolves.len(),
        ensures
            final(self)@ == (BrowseView {
                resolves: old(self)@.resolves.update(
                    number as int,
                    ResolveView {
                        instance: old(self)@.resolves[number as int].instance,
                        delivered: Some(delivered@),
                    },
                ),
                ..old(self)@
            }),
            final(self)@ == after_delivery(old(self)@, number as int, delivered@),
    {
        let instance: String = self.resolves[number].instance.clone();
        self.resolves.set(number, Resolve { instance, delivered: Some(delivered) });
        assert(self@.resolves =~= old(self)@.resolves.update(
            number as int,
            ResolveView {
                instance: old(self)@.resolves[number as int].instance,
                delivered: Some(delivered@),
            },
        ));
        assert(self@.reported =~= old(self)@.reported);
        assert(self@.started =~= old(self)@.started);
    }

    /// Takes every answer that has been delivered. A delivery without a record is
    /// dropped.
    pub fn take_answers(&mut self) -> (r: Vec<Answer>)
        ensures
            answer_views(r@) == answers_in(old(self)@.resolves),
            final(self)@ == (BrowseView { resolves: emptied(old(self)@.resolves), ..old(self)@ }),
    {
        let mut taken: Vec<Resolve> = Vec::new();
        core::mem::swap(&mut taken, &mut self.resolves);
        let mut left: Vec<Resolve> = Vec::new();
        let mut out: Vec<Answer> = Vec::new();
        let ghost all = resolve_views(taken@);
        let ghost mut done: int = 0;
        assert(all == old(self)@.resolves);
        assert(all.take(0) =~= Seq::empty());
        assert(answer_views(out@) =~= Seq::empty());
        while taken.len() > 0
            invariant
                0 <= done <= all.len(),
                resolve_views(taken@) == all.skip(done),
                resolve_views(left@) == emptied(all.take(done)),
                answer_views(out@) == answers_in(all.take(done)),
            decreases taken@.len(),
        {
            let ghost views = resolve_views(taken@);
            assert(views.len() == taken@.len());
            assert(all.skip(done).len() == all.len() - done);
            let Resolve { instance, delivered } = taken.remove(0);
            proof {
                assert(views[0] == all[done]);
                assert forall|i: int| 0 <= i < taken@.len() implies #[trigger] resolve_views(
                    taken@,
                )[i] == all.skip(done + 1)[i] by {
                    assert(resolve_views(taken@)[i] == views[i + 1]);
                    assert(all.skip(done)[i + 1] == all[done + 1 + i]);
                }
                assert(resolve_views(taken@) =~= all.skip(done + 1));
                assert(all.take(done + 1).drop_last() =~= all.take(done));
            }
            let ghost before = out@;
            match delivered {
                Some(d) => {
                    match attribute(&d.attributes, "e") {
                        Some(content) => {
                            let port6: Option<u16> = match attribute(&d.attributes, "p6") {
                                Some(text) => parse_short(text.as_str()),
                                None => None,
                            };
                            let answer = Answer {
                                instance: instance.clone(),
                                content,
                                host: d.host,
                                srv_port: d.srv_port,
                                port6,
                            };
                            out.push(answer);
                            assert(answer_views(out@) =~= answer_views(before).push(answer@));
                        },
                        None => {},
                    }
                },
                None => {},
            }
            let ghost kept = resolve_views(left@);
            left.push(Resolve { instance, delivered: None });
            proof {
                assert(resolve_views(left@) =~= kept.push(
                    ResolveView { instance: instance@, delivered: None },
                ));
                assert(emptied(all.take(done + 1)) =~= emptied(all.take(done)).push(
                    ResolveView { instance: instance@, delivered: None },
                ));
                done = done + 1;
            }
        }
        assert(all.take(done) =~= all) by {
            assert(all.skip(done).len() == 0);
        }
        self.resolves = left;
        assert(self@.resolves =~= emptied(old(self)@.resolves));
        assert(self@.reported =~= old(self)@.reported);
        assert(self@.started =~= old(self)@.started);
        out
    }
}

/// Whether a list holds a text.
fn has_text(list: &Vec<String>, text: &str) -> (r: bool)
    ensures
        r == texts(list@).contains(text@),
{
    let mut i: usize = 0;
    while i < list.len()
        invariant
            i <= list@.len(),
            forall|j: int| 0 <= j < i ==> (#[trigger] texts(list@)[j]) != text@,
        decreases list@.len() - i,
    {
        assert(texts(list@)[i as int] == list@[i as int]@);
        if same_text(list[i].as_str(), text) {
            return true;
        }
        i += 1;
    }
    false
}

// ---------------------------------------------------------------------------
// Collecting addresses
// ---------------------------------------------------------------------------

/// The addresses that a host name has resolved to so far.
pub struct AddrCollector {
    pub ips: Vec<IpAddr>,
    /// Whether everything that the daemon currently knows has been delivered.
    pub done: bool,
}

/// The addresses after a callback.
pub open spec fn collected(ips: Seq<IpAddr>, error: i32, flags: u32, ip: Option<IpAddr>) -> Seq<
    IpAddr,
> {
    if ip is Some && adds(error, flags) {
        ips.push(ip->0)
    } else {
        ips
    }
}

/// The window after a round that ended at `now` with `found` addresses.
pub open spec fn address_window(found: nat, window: u64, now: u64) -> u64 {
    if found > 0 && now + ADDR_GRACE_MS < window {
        (now + ADDR_GRACE_MS) as u64
    } else {
        window
    }
}

impl AddrCollector {
    /// A collector that has seen nothing.
    pub fn new() -> (r: AddrCollector)
        ensures
            r.ips@ == Seq::<IpAddr>::empty(),
            !r.done,
    {
        AddrCollector { ips: Vec::new(), done: false }
    }

    /// Takes an address callback: only additions are addresses to dial, and a callback
    /// with none queued behind it ends the batch. `ip` is `None` for another family.
    pub fn callback(&mut self, error: i32, flags: u32, ip: Option<IpAddr>)
        ensures
            final(self).ips@ == match ip {
                Some(ip) if adds(error, flags) => old(self).ips@.push(ip),
                _ => old(self).ips@,
            },
            final(self).done == (old(self).done || flags & FLAG_MORE_COMING == 0),
            final(self).ips@ == collected(old(self).ips@, error, flags, ip),
    {
        match ip {
            Some(ip) => {
                if error == 0 && flags & FLAG_ADD != 0 {
                    self.ips.push(ip);
                }
            },
            None => {},
        }
        if flags & FLAG_MORE_COMING == 0 {
            self.done = true;
        }
    }

    /// Whether collecting can stop before its window closes.
    pub fn is_complete(&self) -> (r: bool)
        ensures
            r == (self.done && self.ips@.len() > 0),
    {
        self.done && self.ips.len() > 0
    }

    /// The window after a round that ended at `now`, in milliseconds: the first address
    /// leaves a short grace for the other family, which later rounds do not extend.
    pub fn window_after(&self, window: u64, now: u64) -> (r: u64)
        ensures
            r == if self.ips@.len() > 0 && now + ADDR_GRACE_MS < window {
                (now + ADDR_GRACE_MS) as u64
            } else {
                window
            },
            r == address_window(self.ips@.len(), window, now),
            r <= window,
    {
        if self.ips.len() > 0 && window > ADDR_GRACE_MS && now < window - ADDR_GRACE_MS {
            now + ADDR_GRACE_MS
        } else {
            window
        }
    }
}

// ---------------------------------------------------------------------------
// Laws of a browse
// ---------------------------------------------------------------------------

/// A PIN record is read by the candidate key that its label belongs to, wherever that key
/// stands, and a record under another label by none.
pub proof fn labels_pick_the_key(
    candidates: Seq<Identity>,
    label: Seq<char>,
    content: Seq<char>,
    i: int,
)
    ensures
        0 <= i < candidates.len() && instance_label(candidates[i].public_bytes()) == label && (
        forall|j: int|
            i < j < candidates.len() ==> instance_label((#[trigger] candidates[j]).public_bytes())
                != label) ==> pin_record_node(candidates, label, content) == rendezvous_node(
            candidates[i].secret_bytes(),
            candidates[i].public_bytes(),
            content,
        ),
        (forall|j: int|
            0 <= j < candidates.len() ==> instance_label((#[trigger] candidates[j]).public_bytes())
                != label) ==> pin_record_node(candidates, label, content) is None,
{
    labelled_is_the_last(candidates, label, candidates.len(), i);
}

proof fn labelled_is_the_last(candidates: Seq<Identity>, label: Seq<char>, n: nat, i: int)
    requires
        n <= candidates.len(),
    ensures
        0 <= i < n && instance_label(candidates[i].public_bytes()) == label && (forall|j: int|
            i < j < n ==> instance_label((#[trigger] candidates[j]).public_bytes()) != label)
            ==> labelled(candidates, label, n) == Some(i),
        (forall|j: int|
            0 <= j < n ==> instance_label((#[trigger] candidates[j]).public_bytes()) != label)
            ==> labelled(candidates, label, n) is None,
    decreases n,
{
    if n > 0 {
        let last = candidates[n - 1];
        labelled_is_the_last(candidates, label, (n - 1) as nat, i);
    }
}

/// A hosting record is read exactly where its label is that of the host and this device, and
/// this device can read it.
pub proof fn hosting_records_are_read_under_their_label(
    secret: Seq<u8>,
    public: Seq<u8>,
    host: Seq<u8>,
    label: Seq<char>,
    content: Seq<char>,
)
    ensures
        label == lan_label(host, public) ==> hosting_record_node(
            secret,
            public,
            host,
            label,
            content,
        ) == recorded_node(secret, host, content),
        label != lan_label(host, public) ==> hosting_record_node(
            secret,
            public,
            host,
            label,
            content,
        ) is None,
{
}

/// Every resolve that delivered a record is answered, in order and with all that it
/// delivered; one that delivered nothing, or no record, is not.
pub proof fn every_delivered_record_is_answered(
    resolves: Seq<ResolveView>,
    r: ResolveView,
)
    ensures
        answers_in(Seq::<ResolveView>::empty()) == Seq::<AnswerView>::empty(),
        r.delivered is None ==> answers_in(resolves.push(r)) == answers_in(resolves),
        r.delivered matches Some(d) ==> match value_of(d.attributes, "e"@) {
            None => answers_in(resolves.push(r)) == answers_in(resolves),
            Some(content) => {
                &&& answers_in(resolves.push(r)).len() == answers_in(resolves).len() + 1
                &&& answers_in(resolves.push(r)).drop_last() == answers_in(resolves)
                &&& answers_in(resolves.push(r)).last().instance == r.instance
                &&& answers_in(resolves.push(r)).last().content == content
                &&& answers_in(resolves.push(r)).last().host == d.host
                &&& answers_in(resolves.push(r)).last().srv_port == d.srv_port
                &&& answers_in(resolves.push(r)).last().port6 == match value_of(
                    d.attributes,
                    "p6"@,
                ) {
                    Some(text) => parsed_short(text),
                    None => None,
                }
            },
        },
{
    assert(resolves.push(r).drop_last() =~= resolves);
    assert(resolves.push(r).last() == r);
    if let Some(d) = r.delivered {
        if value_of(d.attributes, "e"@) is Some {
            assert(answers_in(resolves.push(r)).drop_last() =~= answers_in(resolves));
        }
    }
}

/// Taking the answers leaves every resolve under way, under its name, with nothing delivered.
pub proof fn resolves_go_on(resolves: Seq<ResolveView>, i: int)
    requires
        0 <= i < resolves.len(),
    ensures
        emptied(resolves).len() == resolves.len(),
        emptied(resolves)[i].instance == resolves[i].instance,
        emptied(resolves)[i].delivered is None,
        answers_in(emptied(resolves)).len() == 0,
{
    nothing_delivered_gives_no_answer(emptied(resolves));
}

proof fn nothing_delivered_gives_no_answer(resolves: Seq<ResolveView>)
    requires
        forall|i: int| 0 <= i < resolves.len() ==> (#[trigger] resolves[i]).delivered is None,
    ensures
        answers_in(resolves).len() == 0,
    decreases resolves.len(),
{
    if resolves.len() > 0 {
        assert(resolves[resolves.len() - 1].delivered is None);
        nothing_delivered_gives_no_answer(resolves.drop_last());
    }
}

/// The names that are still to be looked at are the reported ones from the first on that is
/// not being resolved: those before it are, and it is not.
pub proof fn only_known_names_are_skipped(reported: Seq<Seq<char>>, started: Seq<Seq<char>>)
    ensures
        ({
            let rest = pending(reported, started);
            let skipped = reported.len() - rest.len();
            &&& 0 <= skipped
            &&& rest == reported.skip(skipped)
            &&& forall|i: int| 0 <= i < skipped ==> started.contains(#[trigger] reported[i])
            &&& rest.len() > 0 ==> !started.contains(rest[0])
        }),
    decreases reported.len(),
{
    let rest = pending(reported, started);
    if reported.len() > 0 && started.contains(reported[0]) {
        let tail = reported.drop_first();
        only_known_names_are_skipped(tail, started);
        let skipped = reported.len() - rest.len();
        assert(tail.skip(skipped - 1) =~= reported.skip(skipped));
        assert forall|i: int| 0 <= i < skipped implies started.contains(#[trigger] reported[i]) by {
            if i > 0 {
                assert(tail[i - 1] == reported[i]);
            }
        }
    } else {
        assert(reported.skip(0) =~= reported);
    }
}

/// A callback adds something exactly where it reports no error and carries the flag of an
/// addition, whatever other flags it carries.
pub proof fn additions_carry_their_flag(error: i32, flags: u32)
    ensures
        adds(error, flags) <==> error == 0 && (flags / 2) % 2 == 1,
{
    assert((flags & 2 != 0) <==> (flags / 2) % 2 == 1) by (bit_vector);
}

/// A registration stands where the daemon accepted it or said nothing, is denied by the one
/// code for that, and otherwise failed with the code that was given.
pub proof fn registrations_are_judged_by_their_code(code: i32)
    ensures
        registration(None) is Live,
        registration(Some(code)) is Live <==> code == 0,
        registration(Some(code)) is Denied <==> code == -65570,
        code != 0 && code != -65570 ==> registration(Some(code)) == RegisterVerdict::Failed(code),
{
}

/// Every address that is added is kept, after those before it, and nothing else is; once
/// there is one, the window closes soon after, and never later than before.
pub proof fn added_addresses_are_collected(
    ips: Seq<IpAddr>,
    error: i32,
    flags: u32,
    ip: IpAddr,
    window: u64,
    now: u64,
)
    ensures
        error == 0 && (flags / 2) % 2 == 1 ==> collected(ips, error, flags, Some(ip)) == ips.push(
            ip,
        ),
        error != 0 || (flags / 2) % 2 == 0 ==> collected(ips, error, flags, Some(ip)) == ips,
        collected(ips, error, flags, None) == ips,
        address_window(0, window, now) == window,
        ips.len() > 0 ==> address_window(ips.len(), window, now) == if now + 700 < window {
            now + 700
        } else {
            window as int
        },
{
    additions_carry_their_flag(error, flags);
}

/// A name that is reported and not yet being resolved is looked at, once those before it
/// were, and one that is being resolved is not looked at again; what a resolve delivers is
/// answered under the name it was started for, and a later delivery replaces an earlier one.
pub proof fn every_new_name_is_resolved(
    b: BrowseView,
    name: Seq<char>,
    flags: u32,
    d: DeliveredView,
    again: DeliveredView,
)
    requires
        (flags / 2) % 2 == 1,
    ensures
        b.reported.len() == 0 && !b.started.contains(name) ==> after_next(
            after_report(b, 0, flags, name),
        ).0 == Some(name),
        b.reported.len() == 0 && b.started.contains(name) ==> after_next(
            after_report(b, 0, flags, name),
        ).0 is None,
        ({
            let started = after_start(b, name);
            let n = b.resolves.len() as int;
            let got = after_delivery(started, n, d);
            &&& started.started.contains(name)
            &&& started.resolves.len() == n + 1
            &&& started.reported == b.reported
            &&& got.resolves[n].instance == lowered(name)
            &&& got.resolves[n].delivered == Some(d)
            &&& got.resolves.take(n) == b.resolves
            &&& after_delivery(got, n, again).resolves[n].delivered == Some(again)
        }),
{
    additions_carry_their_flag(0, flags);
    let with = after_report(b, 0, flags, name);
    if b.reported.len() == 0 {
        assert(with.reported =~= seq![name]);
        assert(with.reported.drop_first() =~= Seq::empty());
        reveal_with_fuel(pending, 2);
    }
    let started = after_start(b, name);
    assert(started.started[b.started.len() as int] == name);
    let n = b.resolves.len() as int;
    assert(after_delivery(started, n, d).resolves.take(n) =~= b.resolves);
}

/// The views of answers stand in the order of the answers, one for one, each with all that
/// it says.
pub proof fn answer_views_keep_every_answer(answers: Seq<Answer>, d: Delivered, i: int)
    ensures
        answer_views(answers).len() == answers.len(),
        0 <= i < answers.len() ==> answer_views(answers)[i] == (AnswerView {
            instance: answers[i].instance@,
            content: answers[i].content@,
            host: answers[i].host@,
            srv_port: answers[i].srv_port,
            port6: answers[i].port6,
        }),
        d@.host == d.host@ && d@.srv_port == d.srv_port,
        d@.attributes.len() == d.attributes@.len(),
        0 <= i < d.attributes@.len() ==> d@.attributes[i] == (
            d.attributes@[i].0@,
            d.attributes@[i].1@,
        ),
{
}

} // verus!
