//! Mutual PIN authentication of card setup: a SPAKE2 exchange over the connection.
//!
//! ```text
//! dialer -> listener: a SPAKE2 message per slot
//! listener -> dialer: a SPAKE2 message per slot
//! dialer -> listener: a key confirmation per slot
//! listener -> dialer: the verdict, with the listener's own confirmation
//! ```
//!
//! The dialer enters its one PIN in every slot; the listener enters its i-th most
//! recent PIN in slot i, and random bytes beyond its last. Identities and confirmations
//! name the slot and both node ids, so a handshake finishes only between the two
//! endpoints that ran it.

use vstd::prelude::*;
use vstd::string::*;
use vstd::utf8::*;

use crate::json::text_view;
use crate::hash::{base64_bytes, base64_text, from_base64, to_base64};
use crate::net::handshake::random_bytes;
use crate::pake::{
    finish, hmac_of, hmac_sha256, pake_error, pake_key, pake_party, partners, same_bytes,
    start_dialer, start_listener, started, PakeParty, PakeState,
};
use crate::text::{decimal, push_decimal, texts};

verus! {

/// Exchanges per handshake: one for each PIN that a listener may still honour.
pub const PAKE_SLOTS: usize = 2;

/// The password of an exchange: stretched PIN material.
pub type PinPassword = [u8; 32];

/// Which side made a confirmation.
#[derive(Clone, Copy, Debug, PartialEq, Eq, Structural)]
pub enum Direction {
    Dialer,
    Listener,
}

impl Direction {
    /// The side's name.
    pub open spec fn name(self) -> Seq<char> {
        match self {
            Direction::Dialer => "dialer"@,
            Direction::Listener => "listener"@,
        }
    }

    /// The side's name.
    pub fn as_str(self) -> (r: &'static str)
        ensures
            r@ == self.name(),
    {
        match self {
            Direction::Dialer => "dialer",
            Direction::Listener => "listener",
        }
    }
}

// ---------------------------------------------------------------------------
// What identities and confirmations are made of
// ---------------------------------------------------------------------------

/// The identity of one side in one slot.
pub open spec fn identity_text(side: Direction, slot: nat, id: Seq<char>) -> Seq<char> {
    "duocb:pin-pake:v1|"@ + side.name() + seq!['|'] + decimal(slot) + seq!['|'] + id
}

/// What the confirmation of one side in one slot is computed over.
pub open spec fn confirm_text(
    dir: Direction,
    slot: nat,
    dialer_id: Seq<char>,
    listener_id: Seq<char>,
) -> Seq<char> {
    "duocb:pin-pake:v1|confirm|"@ + dir.name() + seq!['|'] + decimal(slot) + seq!['|'] + dialer_id
        + seq!['|'] + listener_id
}

/// The confirmation of one side in one slot.
pub open spec fn confirmation(
    key: Seq<u8>,
    dir: Direction,
    slot: nat,
    dialer_id: Seq<char>,
    listener_id: Seq<char>,
) -> Seq<u8> {
    hmac_sha256(key, encode_utf8(confirm_text(dir, slot, dialer_id, listener_id)))
}

/// The SPAKE2 identity of one side in one slot: role, slot and that side's node id.
fn pake_identity(side: Direction, slot: usize, id: &str) -> (r: String)
    ensures
        r@ == identity_text(side, slot as nat, id@),
{
    let mut out: String = "duocb:pin-pake:v1|".to_owned();
    out.append(side.as_str());
    out.push('|');
    push_decimal(&mut out, slot as u64);
    out.push('|');
    out.append(id);
    assert(out@ =~= identity_text(side, slot as nat, id@));
    out
}

/// The key confirmation of `dir` in `slot`: a MAC under that slot's key over the
/// domain, the direction, the slot and both node ids.
pub fn confirm_mac(
    key: &[u8],
    dir: Direction,
    slot: usize,
    dialer_id: &str,
    listener_id: &str,
) -> (r: [u8; 32])
    ensures
        r@ == confirmation(key@, dir, slot as nat, dialer_id@, listener_id@),
{
    let mut out: String = "duocb:pin-pake:v1|confirm|".to_owned();
    out.append(dir.as_str());
    out.push('|');
    push_decimal(&mut out, slot as u64);
    out.push('|');
    out.append(dialer_id);
    out.push('|');
    out.append(listener_id);
    assert(out@ =~= confirm_text(dir, slot as nat, dialer_id@, listener_id@));
    hmac_of(key, out.as_str().as_bytes())
}

// ---------------------------------------------------------------------------
// Reading the other side's messages
// ---------------------------------------------------------------------------

/// The report of a message that is no base64 text.
pub open spec fn undecodable(dialer: bool) -> Seq<char> {
    if dialer {
        "decoding the listener's PAKE message"@
    } else {
        "decoding the dialer's PAKE message"@
    }
}

/// What the dialer, or the listener, has against the message in `slot`.
pub open spec fn slot_error(dialer: bool, slot: nat, text: Seq<char>) -> Option<Seq<char>> {
    match base64_bytes(text) {
        None => Some(undecodable(dialer)),
        Some(message) => match pake_error(dialer, message) {
            None => None,
            Some(e) => Some("finishing PAKE slot "@ + decimal(slot) + ": "@ + e.words()),
        },
    }
}

/// What the dialer, or the listener, has against the first bad message from slot
/// `from` on.
pub open spec fn first_slot_error(dialer: bool, messages: Seq<Seq<char>>, from: nat) -> Option<
    Seq<char>,
>
    decreases messages.len() - from,
{
    if from >= messages.len() {
        None
    } else {
        match slot_error(dialer, from, messages[from as int]) {
            Some(e) => Some(e),
            None => first_slot_error(dialer, messages, from + 1),
        }
    }
}

/// The report of a message that holds something else than one part per slot.
pub open spec fn count_error(who: Seq<char>, count: nat, what: Seq<char>) -> Seq<char> {
    who + " sent "@ + decimal(count) + what + decimal(PAKE_SLOTS as nat)
}

/// Why the dialer, or the listener, does not go on with these messages, or `None`.
pub open spec fn exchange_error(dialer: bool, messages: Seq<Seq<char>>) -> Option<Seq<char>> {
    if messages.len() != PAKE_SLOTS {
        Some(
            count_error(
                if dialer {
                    "listener"@
                } else {
                    "dialer"@
                },
                messages.len(),
                " PAKE messages, expected "@,
            ),
        )
    } else {
        first_slot_error(dialer, messages, 0)
    }
}

fn count_report(who: &str, count: usize, what: &str) -> (r: String)
    ensures
        r@ == count_error(who@, count as nat, what@),
{
    let mut out: String = who.to_owned();
    out.append(" sent ");
    push_decimal(&mut out, count as u64);
    out.append(what);
    push_decimal(&mut out, PAKE_SLOTS as u64);
    out
}

/// Finishes one slot with the message that the other side sent for it.
fn finish_slot(state: PakeState, dialer: bool, slot: usize, text: &str) -> (r: Result<
    Vec<u8>,
    String,
>)
    requires
        pake_party(state).dialer == dialer,
    ensures
        match r {
            Err(e) => slot_error(dialer, slot as nat, text@) == Some(e@),
            Ok(key) => slot_error(dialer, slot as nat, text@) is None && key@ == pake_key(
                pake_party(state),
                base64_bytes(text@)->0,
            ) && agrees(pake_party(state), base64_bytes(text@)->0),
        },
{
    match from_base64(text) {
        None => {
            if dialer {
                Err("decoding the listener's PAKE message".to_owned())
            } else {
                Err("decoding the dialer's PAKE message".to_owned())
            }
        },
        Some(message) => {
            match finish(state, message.as_slice()) {
                Ok(key) => Ok(key),
                Err(e) => {
                    let mut out: String = "finishing PAKE slot ".to_owned();
                    push_decimal(&mut out, slot as u64);
                    out.append(": ");
                    out.append(e.as_str());
                    Err(out)
                },
            }
        },
    }
}

/// Whether a side derives the key that every partner whose message it received derives
/// from its own.
pub open spec fn agrees(party: PakeParty, received: Seq<u8>) -> bool {
    forall|other: PakeParty| #[trigger]
        partners(party, other) && other.sent == received ==> pake_key(party, received) == pake_key(
            other,
            party.sent,
        )
}

/// The message that `message_text` stands for.
pub open spec fn message_of(message_text: Seq<char>) -> Seq<u8> {
    base64_bytes(message_text)->0
}

/// The keys that the parties derive from the messages they received, slot by slot.
pub open spec fn slot_keys(parties: Seq<PakeParty>, received: Seq<Seq<char>>) -> Seq<Seq<u8>> {
    Seq::new(parties.len(), |i: int| pake_key(parties[i], message_of(received[i])))
}

/// The texts of the messages that the parties sent.
pub open spec fn sent_texts(parties: Seq<PakeParty>) -> Seq<Seq<char>> {
    parties.map_values(|p: PakeParty| base64_text(p.sent))
}

/// The views of a list of byte strings.
pub open spec fn byte_views(v: Seq<Vec<u8>>) -> Seq<Seq<u8>> {
    v.map_values(|b: Vec<u8>| b@)
}

/// Whether every message of the parties can be read by the other side.
pub open spec fn messages_are_well_formed(parties: Seq<PakeParty>) -> bool {
    forall|i: int|
        0 <= i < parties.len() ==> {
            &&& base64_bytes(#[trigger] sent_texts(parties)[i]) == Some(parties[i].sent)
            &&& pake_error(!parties[i].dialer, parties[i].sent) is None
        }
}

// ---------------------------------------------------------------------------
// The dialer
// ---------------------------------------------------------------------------

/// Whether `party` is the dialer's side of `slot`.
pub open spec fn dialer_party(
    party: PakeParty,
    password: Seq<u8>,
    slot: nat,
    dialer_id: Seq<char>,
    listener_id: Seq<char>,
) -> bool {
    started(
        party,
        true,
        password,
        encode_utf8(identity_text(Direction::Dialer, slot, dialer_id)),
        encode_utf8(identity_text(Direction::Listener, slot, listener_id)),
    )
}

/// Whether `party` is the listener's side of `slot`.
pub open spec fn listener_party(
    party: PakeParty,
    password: Seq<u8>,
    slot: nat,
    dialer_id: Seq<char>,
    listener_id: Seq<char>,
) -> bool {
    started(
        party,
        false,
        password,
        encode_utf8(identity_text(Direction::Dialer, slot, dialer_id)),
        encode_utf8(identity_text(Direction::Listener, slot, listener_id)),
    )
}

/// A dialer that has sent its opening messages.
pub struct DialerHandshake {
    states: Vec<PakeState>,
    dialer_id: String,
    listener_id: String,
}

impl DialerHandshake {
    /// The sides of the exchanges, slot by slot.
    pub closed spec fn parties(self) -> Seq<PakeParty> {
        self.states@.map_values(|s: PakeState| pake_party(s))
    }

    /// The node id of the dialer.
    pub closed spec fn dialer(self) -> Seq<char> {
        self.dialer_id@
    }

    /// The node id that was dialed.
    pub closed spec fn listener(self) -> Seq<char> {
        self.listener_id@
    }

    #[verifier::type_invariant]
    spec fn well_formed(self) -> bool {
        &&& self.states@.len() == PAKE_SLOTS
        &&& forall|i: int|
            0 <= i < PAKE_SLOTS ==> pake_party(#[trigger] self.states@[i]).dialer
    }

    /// Starts an exchange per slot, every one on the typed PIN, and gives the opening
    /// messages.
    pub fn open(password: &PinPassword, dialer_id: &str, listener_id: &str) -> (r: (
        DialerHandshake,
        Vec<String>,
    ))
        ensures
            r.0.dialer() == dialer_id@,
            r.0.listener() == listener_id@,
            r.0.parties().len() == PAKE_SLOTS,
            forall|i: int|
                0 <= i < PAKE_SLOTS ==> dialer_party(
                    #[trigger] r.0.parties()[i],
                    password@,
                    i as nat,
                    dialer_id@,
                    listener_id@,
                ),
            texts(r.1@) == sent_texts(r.0.parties()),
            messages_are_well_formed(r.0.parties()),
    {
        let mut states: Vec<PakeState> = Vec::new();
        let mut messages: Vec<String> = Vec::new();
        let mut slot: usize = 0;
        while slot < PAKE_SLOTS
            invariant
                slot <= PAKE_SLOTS,
                states@.len() == slot,
                messages@.len() == slot,
                forall|i: int|
                    0 <= i < slot ==> {
                        &&& dialer_party(
                            pake_party(#[trigger] states@[i]),
                            password@,
                            i as nat,
                            dialer_id@,
                            listener_id@,
                        )
                        &&& messages@[i]@ == base64_text(pake_party(states@[i]).sent)
                        &&& base64_bytes(messages@[i]@) == Some(pake_party(states@[i]).sent)
                        &&& pake_error(false, pake_party(states@[i]).sent) is None
                    },
            decreases PAKE_SLOTS - slot,
        {
            let id_a: String = pake_identity(Direction::Dialer, slot, dialer_id);
            let id_b: String = pake_identity(Direction::Listener, slot, listener_id);
            let (state, message) = start_dialer(
                password,
                id_a.as_str().as_bytes(),
                id_b.as_str().as_bytes(),
            );
            messages.push(to_base64(message.as_slice()));
            states.push(state);
            slot += 1;
        }
        let r = DialerHandshake {
            states,
            dialer_id: dialer_id.to_owned(),
            listener_id: listener_id.to_owned(),
        };
        assert(texts(messages@) =~= sent_texts(r.parties()));
        (r, messages)
    }

    /// Takes the listener's messages: a key confirmation per slot, and the keys that
    /// the verdict is held against.
    pub fn answer(self, messages: &Vec<String>) -> (r: Result<(DialerKeys, Vec<String>), String>)
        ensures
            match r {
                Err(e) => exchange_error(true, texts(messages@)) == Some(e@),
                Ok((keys, confirms)) => {
                    &&& exchange_error(true, texts(messages@)) is None
                    &&& keys.keys() == slot_keys(self.parties(), texts(messages@))
                    &&& keys.dialer() == self.dialer()
                    &&& keys.listener() == self.listener()
                    &&& texts(confirms@) == confirm_texts(
                        keys.keys(),
                        Direction::Dialer,
                        self.dialer(),
                        self.listener(),
                    )
                    &&& confirms_are_readable(
                        keys.keys(),
                        Direction::Dialer,
                        self.dialer(),
                        self.listener(),
                    )
                    &&& forall|i: int|
                        0 <= i < PAKE_SLOTS ==> agrees(
                            #[trigger] self.parties()[i],
                            message_of(texts(messages@)[i]),
                        )
                },
            },
    {
        proof {
            use_type_invariant(&self);
        }
        let DialerHandshake { mut states, dialer_id, listener_id } = self;
        if messages.len() != PAKE_SLOTS {
            let e: String = count_report("listener", messages.len(), " PAKE messages, expected ");
            assert(exchange_error(true, texts(messages@)) == Some(e@));
            return Err(e);
        }
        let ghost before = states@;
        let mut keys: Vec<Vec<u8>> = Vec::new();
        let mut confirms: Vec<String> = Vec::new();
        let mut slot: usize = 0;
        while slot < PAKE_SLOTS
            invariant
                slot <= PAKE_SLOTS,
                messages@.len() == PAKE_SLOTS,
                before.len() == PAKE_SLOTS,
                states@ == before.skip(slot as int),
                keys@.len() == slot,
                confirms@.len() == slot,
                forall|i: int| 0 <= i < PAKE_SLOTS ==> pake_party(#[trigger] before[i]).dialer,
                exchange_error(true, texts(messages@)) == first_slot_error(
                    true,
                    texts(messages@),
                    slot as nat,
                ),
                forall|i: int|
                    0 <= i < slot ==> {
                        &&& (#[trigger] keys@[i])@ == pake_key(
                            pake_party(before[i]),
                            message_of(messages@[i]@),
                        )
                        &&& agrees(pake_party(before[i]), message_of(messages@[i]@))
                        &&& confirms@[i]@ == base64_text(
                            confirmation(
                                keys@[i]@,
                                Direction::Dialer,
                                i as nat,
                                dialer_id@,
                                listener_id@,
                            ),
                        )
                        &&& base64_bytes(confirms@[i]@) == Some(
                            confirmation(
                                keys@[i]@,
                                Direction::Dialer,
                                i as nat,
                                dialer_id@,
                                listener_id@,
                            ),
                        )
                    },
            decreases PAKE_SLOTS - slot,
        {
            let state: PakeState = states.remove(0);
            assert(state == before[slot as int]);
            assert(states@ =~= before.skip(slot + 1));
            assert(texts(messages@)[slot as int] == messages@[slot as int]@);
            match finish_slot(state, true, slot, messages[slot].as_str()) {
                Err(e) => {
                    assert(exchange_error(true, texts(messages@)) == Some(e@));
                    return Err(e);
                },
                Ok(key) => {
                    let mac: [u8; 32] = confirm_mac(
                        key.as_slice(),
                        Direction::Dialer,
                        slot,
                        dialer_id.as_str(),
                        listener_id.as_str(),
                    );
                    confirms.push(to_base64(&mac));
                    keys.push(key);
                },
            }
            slot += 1;
        }
        let ghost derived = keys@;
        let r = DialerKeys { keys, dialer_id, listener_id };
        assert(r.keys() =~= slot_keys(self.parties(), texts(messages@)));
        assert(texts(confirms@) =~= confirm_texts(
            r.keys(),
            Direction::Dialer,
            self.dialer(),
            self.listener(),
        ));
        assert forall|i: int| 0 <= i < PAKE_SLOTS implies agrees(
            #[trigger] self.parties()[i],
            message_of(texts(messages@)[i]),
        ) by {
            assert(self.parties()[i] == pake_party(before[i]));
            assert(derived[i]@ == pake_key(pake_party(before[i]), message_of(messages@[i]@)));
        }
        Ok((r, confirms))
    }
}

/// The texts of the confirmations of one side, slot by slot.
pub open spec fn confirm_texts(
    keys: Seq<Seq<u8>>,
    dir: Direction,
    dialer_id: Seq<char>,
    listener_id: Seq<char>,
) -> Seq<Seq<char>> {
    Seq::new(
        keys.len(),
        |i: int| base64_text(confirmation(keys[i], dir, i as nat, dialer_id, listener_id)),
    )
}

/// Whether the texts of one side's confirmations decode to the confirmations.
pub open spec fn confirms_are_readable(
    keys: Seq<Seq<u8>>,
    dir: Direction,
    dialer_id: Seq<char>,
    listener_id: Seq<char>,
) -> bool {
    forall|i: int|
        0 <= i < keys.len() ==> base64_bytes(
            #[trigger] confirm_texts(keys, dir, dialer_id, listener_id)[i],
        ) == Some(confirmation(keys[i], dir, i as nat, dialer_id, listener_id))
}

/// The listener's last message.
pub struct SlotVerdict {
    pub accepted: bool,
    pub reason: Option<String>,
    /// The slot whose PIN the two sides share.
    pub slot: Option<usize>,
    /// The listener's confirmation for that slot.
    pub confirm: Option<String>,
}

/// The content of a verdict.
pub struct SlotVerdictView {
    pub accepted: bool,
    pub reason: Option<Seq<char>>,
    pub slot: Option<usize>,
    pub confirm: Option<Seq<char>>,
}

impl View for SlotVerdict {
    type V = SlotVerdictView;

    open spec fn view(&self) -> SlotVerdictView {
        SlotVerdictView {
            accepted: self.accepted,
            reason: text_view(self.reason),
            slot: self.slot,
            confirm: text_view(self.confirm),
        }
    }
}

/// Why a dialer with these keys does not take a verdict for a proof that the listener
/// holds the PIN, or `None` where it does.
pub open spec fn verdict_error(
    keys: Seq<Seq<u8>>,
    dialer_id: Seq<char>,
    listener_id: Seq<char>,
    verdict: SlotVerdictView,
) -> Option<Seq<char>> {
    if !verdict.accepted {
        Some(
            "PIN authentication rejected: "@ + match verdict.reason {
                Some(reason) => reason,
                None => "unknown"@,
            },
        )
    } else {
        match verdict.slot {
            None => Some("listener accepted but named no slot"@),
            Some(slot) => if slot >= PAKE_SLOTS {
                Some("listener named out-of-range slot "@ + decimal(slot as nat))
            } else {
                match verdict.confirm {
                    None => Some("listener accepted but sent no confirmation"@),
                    Some(text) => match base64_bytes(text) {
                        None => Some("decoding the listener's confirmation"@),
                        Some(mac) => if mac == confirmation(
                            keys[slot as int],
                            Direction::Listener,
                            slot as nat,
                            dialer_id,
                            listener_id,
                        ) {
                            None
                        } else {
                            Some("listener failed to prove PIN possession (wrong peer?)"@)
                        },
                    },
                }
            },
        }
    }
}

/// A dialer that has sent its confirmations.
pub struct DialerKeys {
    keys: Vec<Vec<u8>>,
    dialer_id: String,
    listener_id: String,
}

impl DialerKeys {
    /// The keys, slot by slot.
    pub closed spec fn keys(self) -> Seq<Seq<u8>> {
        byte_views(self.keys@)
    }

    /// The node id of the dialer.
    pub closed spec fn dialer(self) -> Seq<char> {
        self.dialer_id@
    }

    /// The node id that was dialed.
    pub closed spec fn listener(self) -> Seq<char> {
        self.listener_id@
    }

    #[verifier::type_invariant]
    spec fn well_formed(self) -> bool {
        self.keys@.len() == PAKE_SLOTS
    }

    /// Holds the verdict against the keys: `Ok` only where the listener accepted a slot
    /// and proved that it derived the same key there.
    pub fn conclude(&self, verdict: &SlotVerdict) -> (r: Result<(), String>)
        ensures
            match r {
                Ok(()) => verdict_error(self.keys(), self.dialer(), self.listener(), verdict@)
                    is None,
                Err(e) => verdict_error(self.keys(), self.dialer(), self.listener(), verdict@)
                    == Some(e@),
            },
    {
        proof {
            use_type_invariant(self);
        }
        if !verdict.accepted {
            let mut out: String = "PIN authentication rejected: ".to_owned();
            match &verdict.reason {
                Some(reason) => {
                    out.append(reason.as_str());
                },
                None => {
                    out.append("unknown");
                },
            }
            return Err(out);
        }
        let slot: usize = match verdict.slot {
            None => {
                return Err("listener accepted but named no slot".to_owned());
            },
            Some(slot) => slot,
        };
        if slot >= PAKE_SLOTS {
            let mut out: String = "listener named out-of-range slot ".to_owned();
            push_decimal(&mut out, slot as u64);
            return Err(out);
        }
        match &verdict.confirm {
            None => Err("listener accepted but sent no confirmation".to_owned()),
            Some(text) => {
                match from_base64(text.as_str()) {
                    None => Err("decoding the listener's confirmation".to_owned()),
                    Some(mac) => {
                        let expected: [u8; 32] = confirm_mac(
                            self.keys[slot].as_slice(),
                            Direction::Listener,
                            slot,
                            self.dialer_id.as_str(),
                            self.listener_id.as_str(),
                        );
                        if same_bytes(mac.as_slice(), &expected) {
                            Ok(())
                        } else {
                            Err("listener failed to prove PIN possession (wrong peer?)".to_owned())
                        }
                    },
                }
            },
        }
    }
}

// ---------------------------------------------------------------------------
// The listener
// ---------------------------------------------------------------------------

/// Whether the confirmation that a dialer sent for `slot` is the one that a holder of
/// the slot's key computes.
pub open spec fn slot_confirmed(
    keys: Seq<Seq<u8>>,
    slot: int,
    text: Seq<char>,
    dialer_id: Seq<char>,
    listener_id: Seq<char>,
) -> bool {
    base64_bytes(text) == Some(
        confirmation(keys[slot], Direction::Dialer, slot as nat, dialer_id, listener_id),
    )
}

/// The first slot from `from` on that runs on a live PIN and is confirmed.
pub open spec fn matched_slot(
    live: nat,
    keys: Seq<Seq<u8>>,
    confirms: Seq<Seq<char>>,
    dialer_id: Seq<char>,
    listener_id: Seq<char>,
    from: nat,
) -> Option<usize>
    decreases PAKE_SLOTS - from,
{
    if from >= PAKE_SLOTS {
        None
    } else if from < live && slot_confirmed(
        keys,
        from as int,
        confirms[from as int],
        dialer_id,
        listener_id,
    ) {
        Some(from as usize)
    } else {
        matched_slot(live, keys, confirms, dialer_id, listener_id, from + 1)
    }
}

/// What a listener sends after matching a slot, or none, where `committed` says
/// whether the pairing was still free.
pub open spec fn verdict_for(
    keys: Seq<Seq<u8>>,
    dialer_id: Seq<char>,
    listener_id: Seq<char>,
    matched: Option<usize>,
    committed: bool,
) -> SlotVerdictView {
    match matched {
        Some(slot) if committed => SlotVerdictView {
            accepted: true,
            reason: None,
            slot: Some(slot),
            confirm: Some(
                base64_text(
                    confirmation(
                        keys[slot as int],
                        Direction::Listener,
                        slot as nat,
                        dialer_id,
                        listener_id,
                    ),
                ),
            ),
        },
        Some(_) => SlotVerdictView {
            accepted: false,
            reason: Some("listener already paired with another device"@),
            slot: None,
            confirm: None,
        },
        None => SlotVerdictView {
            accepted: false,
            reason: Some("PIN authentication failed"@),
            slot: None,
            confirm: None,
        },
    }
}

/// Whether the text of the confirmation in a verdict, if it holds one, decodes to the
/// confirmation of its slot.
pub open spec fn verdict_is_readable(
    keys: Seq<Seq<u8>>,
    dialer_id: Seq<char>,
    listener_id: Seq<char>,
    verdict: SlotVerdictView,
) -> bool {
    match (verdict.slot, verdict.confirm) {
        (Some(slot), Some(text)) => base64_bytes(text) == Some(
            confirmation(
                keys[slot as int],
                Direction::Listener,
                slot as nat,
                dialer_id,
                listener_id,
            ),
        ),
        _ => true,
    }
}

/// What a listener reports of a handshake that it did not accept.
pub open spec fn listener_report(matched: Option<usize>, committed: bool) -> Option<Seq<char>> {
    match matched {
        Some(_) => if committed {
            None
        } else {
            Some("valid PIN but the listener paired with another device first"@)
        },
        None => Some(
            "no recent PIN matched the dialer's PAKE confirmation (wrong or expired PIN)"@,
        ),
    }
}

/// Why a listener does not look at these confirmations, or `None`.
pub open spec fn confirms_error(confirms: Seq<Seq<char>>) -> Option<Seq<char>> {
    if confirms.len() != PAKE_SLOTS {
        Some(count_error("dialer"@, confirms.len(), " confirmations, expected "@))
    } else {
        None
    }
}

/// A listener that has answered the opening messages.
pub struct ListenerHandshake {
    live: usize,
    keys: Vec<Vec<u8>>,
    dialer_id: String,
    listener_id: String,
    parties: Ghost<Seq<PakeParty>>,
}

impl ListenerHandshake {
    /// How many slots run on a PIN that the listener honours.
    pub closed spec fn live(self) -> nat {
        self.live as nat
    }

    /// The keys, slot by slot.
    pub closed spec fn keys(self) -> Seq<Seq<u8>> {
        byte_views(self.keys@)
    }

    /// The sides of the exchanges, slot by slot.
    pub closed spec fn parties(self) -> Seq<PakeParty> {
        self.parties@
    }

    /// The node id of the dialer.
    pub closed spec fn dialer(self) -> Seq<char> {
        self.dialer_id@
    }

    /// The node id of the listener.
    pub closed spec fn listener(self) -> Seq<char> {
        self.listener_id@
    }

    #[verifier::type_invariant]
    spec fn well_formed(self) -> bool {
        self.keys@.len() == PAKE_SLOTS
    }

    /// Answers a dialer's opening messages. `candidates` are the passwords of the
    /// recent PINs, newest first; slot i runs on the i-th, and on random bytes beyond
    /// the last.
    pub fn challenge(
        candidates: &Vec<PinPassword>,
        messages: &Vec<String>,
        dialer_id: &str,
        listener_id: &str,
    ) -> (r: Result<(ListenerHandshake, Vec<String>), String>)
        ensures
            match r {
                Err(e) => exchange_error(false, texts(messages@)) == Some(e@),
                Ok((listener, reply)) => {
                    &&& exchange_error(false, texts(messages@)) is None
                    &&& listener.dialer() == dialer_id@
                    &&& listener.listener() == listener_id@
                    &&& listener.live() == if candidates@.len() < PAKE_SLOTS {
                        candidates@.len()
                    } else {
                        PAKE_SLOTS as nat
                    }
                    &&& listener.parties().len() == PAKE_SLOTS
                    &&& forall|i: int|
                        0 <= i < PAKE_SLOTS ==> !(#[trigger] listener.parties()[i]).dialer
                    &&& forall|i: int|
                        0 <= i < PAKE_SLOTS && i < candidates@.len() ==> listener_party(
                            #[trigger] listener.parties()[i],
                            candidates@[i]@,
                            i as nat,
                            dialer_id@,
                            listener_id@,
                        )
                    &&& listener.keys() == slot_keys(listener.parties(), texts(messages@))
                    &&& texts(reply@) == sent_texts(listener.parties())
                    &&& messages_are_well_formed(listener.parties())
                    &&& forall|i: int|
                        0 <= i < PAKE_SLOTS ==> agrees(
                            #[trigger] listener.parties()[i],
                            message_of(texts(messages@)[i]),
                        )
                },
            },
    {
        if messages.len() != PAKE_SLOTS {
            let e: String = count_report("dialer", messages.len(), " PAKE messages, expected ");
            assert(exchange_error(false, texts(messages@)) == Some(e@));
            return Err(e);
        }
        let mut keys: Vec<Vec<u8>> = Vec::new();
        let mut reply: Vec<String> = Vec::new();
        let ghost mut parties: Seq<PakeParty> = Seq::empty();
        let mut live: usize = 0;
        let mut slot: usize = 0;
        while slot < PAKE_SLOTS
            invariant
                slot <= PAKE_SLOTS,
                messages@.len() == PAKE_SLOTS,
                parties.len() == slot,
                keys@.len() == slot,
                reply@.len() == slot,
                live == if candidates@.len() < slot {
                    candidates@.len()
                } else {
                    slot as nat
                },
                exchange_error(false, texts(messages@)) == first_slot_error(
                    false,
                    texts(messages@),
                    slot as nat,
                ),
                forall|i: int|
                    0 <= i < slot ==> {
                        &&& !(#[trigger] parties[i]).dialer
                        &&& i < candidates@.len() ==> listener_party(
                            parties[i],
                            candidates@[i]@,
                            i as nat,
                            dialer_id@,
                            listener_id@,
                        )
                        &&& keys@[i]@ == pake_key(parties[i], message_of(messages@[i]@))
                        &&& agrees(parties[i], message_of(messages@[i]@))
                        &&& reply@[i]@ == base64_text(parties[i].sent)
                        &&& base64_bytes(reply@[i]@) == Some(parties[i].sent)
                        &&& pake_error(true, parties[i].sent) is None
                    },
            decreases PAKE_SLOTS - slot,
        {
            let password: [u8; 32] = if slot < candidates.len() {
                live += 1;
                candidates[slot]
            } else {
                random_bytes()
            };
            let id_a: String = pake_identity(Direction::Dialer, slot, dialer_id);
            let id_b: String = pake_identity(Direction::Listener, slot, listener_id);
            let (state, message) = start_listener(
                &password,
                id_a.as_str().as_bytes(),
                id_b.as_str().as_bytes(),
            );
            let ghost party = pake_party(state);
            assert(texts(messages@)[slot as int] == messages@[slot as int]@);
            match finish_slot(state, false, slot, messages[slot].as_str()) {
                Err(e) => {
                    assert(exchange_error(false, texts(messages@)) == Some(e@));
                    return Err(e);
                },
                Ok(key) => {
                    keys.push(key);
                },
            }
            reply.push(to_base64(message.as_slice()));
            proof {
                parties = parties.push(party);
            }
            slot += 1;
        }
        let r = ListenerHandshake {
            live,
            keys,
            dialer_id: dialer_id.to_owned(),
            listener_id: listener_id.to_owned(),
            parties: Ghost(parties),
        };
        assert(r.keys() =~= slot_keys(r.parties(), texts(messages@)));
        assert(texts(reply@) =~= sent_texts(r.parties()));
        Ok((r, reply))
    }

    /// Finds the PIN that the two sides share: the first slot on a live PIN whose
    /// confirmation verifies.
    pub fn matched(&self, confirms: &Vec<String>) -> (r: Result<Option<usize>, String>)
        ensures
            match r {
                Err(e) => confirms_error(texts(confirms@)) == Some(e@),
                Ok(slot) => confirms_error(texts(confirms@)) is None && slot == matched_slot(
                    self.live(),
                    self.keys(),
                    texts(confirms@),
                    self.dialer(),
                    self.listener(),
                    0,
                ),
            },
    {
        proof {
            use_type_invariant(self);
        }
        if confirms.len() != PAKE_SLOTS {
            let e: String = count_report("dialer", confirms.len(), " confirmations, expected ");
            assert(confirms_error(texts(confirms@)) == Some(e@));
            return Err(e);
        }
        let mut slot: usize = 0;
        while slot < PAKE_SLOTS
            invariant
                slot <= PAKE_SLOTS,
                confirms@.len() == PAKE_SLOTS,
                self.keys@.len() == PAKE_SLOTS,
                matched_slot(
                    self.live(),
                    self.keys(),
                    texts(confirms@),
                    self.dialer(),
                    self.listener(),
                    0,
                ) == matched_slot(
                    self.live(),
                    self.keys(),
                    texts(confirms@),
                    self.dialer(),
                    self.listener(),
                    slot as nat,
                ),
            decreases PAKE_SLOTS - slot,
        {
            let expected: [u8; 32] = confirm_mac(
                self.keys[slot].as_slice(),
                Direction::Dialer,
                slot,
                self.dialer_id.as_str(),
                self.listener_id.as_str(),
            );
            assert(texts(confirms@)[slot as int] == confirms@[slot as int]@);
            assert(self.keys()[slot as int] == self.keys@[slot as int]@);
            match from_base64(confirms[slot].as_str()) {
                None => {},
                Some(mac) => {
                    if slot < self.live && same_bytes(mac.as_slice(), &expected) {
                        return Ok(Some(slot));
                    }
                },
            }
            slot += 1;
        }
        Ok(None)
    }

    /// The verdict for a matched slot, or for none, and what the listener reports of a
    /// handshake that it did not accept. `committed` says whether the pairing was still
    /// free.
    pub fn verdict(&self, matched: Option<usize>, committed: bool) -> (r: (
        SlotVerdict,
        Result<(), String>,
    ))
        requires
            matched matches Some(slot) ==> slot < PAKE_SLOTS,
        ensures
            r.0@ == verdict_for(self.keys(), self.dialer(), self.listener(), matched, committed),
            verdict_is_readable(self.keys(), self.dialer(), self.listener(), r.0@),
            match r.1 {
                Ok(()) => listener_report(matched, committed) is None,
                Err(e) => listener_report(matched, committed) == Some(e@),
            },
    {
        proof {
            use_type_invariant(self);
        }
        match matched {
            Some(slot) => {
                if committed {
                    let mac: [u8; 32] = confirm_mac(
                        self.keys[slot].as_slice(),
                        Direction::Listener,
                        slot,
                        self.dialer_id.as_str(),
                        self.listener_id.as_str(),
                    );
                    (
                        SlotVerdict {
                            accepted: true,
                            reason: None,
                            slot: Some(slot),
                            confirm: Some(to_base64(&mac)),
                        },
                        Ok(()),
                    )
                } else {
                    (
                        SlotVerdict {
                            accepted: false,
                            reason: Some("listener already paired with another device".to_owned()),
                            slot: None,
                            confirm: None,
                        },
                        Err(
                            "valid PIN but the listener paired with another device first".to_owned(),
                        ),
                    )
                }
            },
            None => (
                SlotVerdict {
                    accepted: false,
                    reason: Some("PIN authentication failed".to_owned()),
                    slot: None,
                    confirm: None,
                },
                Err(
                    "no recent PIN matched the dialer's PAKE confirmation (wrong or expired PIN)".to_owned(),
                ),
            ),
        }
    }

    /// Judges a dialer's confirmations. Where a slot matches, `commit` has the final say
    /// before acceptance is sent: it returns `false` where another peer won the pairing,
    /// and a race loser is never told that it was accepted. Only then may it be called, so
    /// that a dialer which proved nothing commits nothing.
    pub fn judge<F: FnOnce() -> bool>(&self, confirms: &Vec<String>, commit: F) -> (r: Result<
        (SlotVerdict, Result<(), String>),
        String,
    >)
        requires
            confirms_error(texts(confirms@)) is None && matched_slot(
                self.live(),
                self.keys(),
                texts(confirms@),
                self.dialer(),
                self.listener(),
                0,
            ) is Some ==> commit.requires(()),
        ensures
            match r {
                Err(e) => confirms_error(texts(confirms@)) == Some(e@),
                Ok((verdict, report)) => {
                    let matched = matched_slot(
                        self.live(),
                        self.keys(),
                        texts(confirms@),
                        self.dialer(),
                        self.listener(),
                        0,
                    );
                    &&& confirms_error(texts(confirms@)) is None
                    &&& verdict_is_readable(self.keys(), self.dialer(), self.listener(), verdict@)
                    &&& exists|committed: bool|
                        {
                            &&& matched is Some ==> commit.ensures((), committed)
                            &&& verdict@ == #[trigger] verdict_for(
                                self.keys(),
                                self.dialer(),
                                self.listener(),
                                matched,
                                committed,
                            )
                            &&& match report {
                                Ok(()) => listener_report(matched, committed) is None,
                                Err(e) => listener_report(matched, committed) == Some(e@),
                            }
                        }
                },
            },
    {
        match self.matched(confirms) {
            Err(e) => Err(e),
            Ok(matched) => {
                proof {
                    matched_slots_are_live(
                        self.live(),
                        self.keys(),
                        texts(confirms@),
                        self.dialer(),
                        self.listener(),
                        0,
                    );
                }
                let committed: bool = if matched.is_some() {
                    commit()
                } else {
                    false
                };
                Ok(self.verdict(matched, committed))
            },
        }
    }
}

// ---------------------------------------------------------------------------
// What holds of the handshake
// ---------------------------------------------------------------------------

/// Only a slot that runs on a live PIN, and whose confirmation verifies, is ever
/// matched: a slot filled with random bytes is never accepted, and with no live PIN
/// nothing is.
pub proof fn matched_slots_are_live(
    live: nat,
    keys: Seq<Seq<u8>>,
    confirms: Seq<Seq<char>>,
    dialer_id: Seq<char>,
    listener_id: Seq<char>,
    from: nat,
)
    ensures
        match matched_slot(live, keys, confirms, dialer_id, listener_id, from) {
            Some(slot) => from <= slot < PAKE_SLOTS && slot < live && slot_confirmed(
                keys,
                slot as int,
                confirms[slot as int],
                dialer_id,
                listener_id,
            ),
            None => forall|slot: int|
                from <= slot < PAKE_SLOTS && slot < live ==> !slot_confirmed(
                    keys,
                    slot,
                    #[trigger] confirms[slot],
                    dialer_id,
                    listener_id,
                ),
        },
    decreases PAKE_SLOTS - from,
{
    if from < PAKE_SLOTS && !(from < live && slot_confirmed(
        keys,
        from as int,
        confirms[from as int],
        dialer_id,
        listener_id,
    )) {
        matched_slots_are_live(live, keys, confirms, dialer_id, listener_id, from + 1);
    }
}

/// A dialer that is turned away is told so: whatever the keys, a verdict without
/// acceptance concludes in a rejection.
pub proof fn a_denied_dialer_sees_the_rejection(
    listener_keys: Seq<Seq<u8>>,
    dialer_keys: Seq<Seq<u8>>,
    dialer_id: Seq<char>,
    listener_id: Seq<char>,
    matched: Option<usize>,
)
    ensures
        verdict_error(
            dialer_keys,
            dialer_id,
            listener_id,
            verdict_for(listener_keys, dialer_id, listener_id, matched, false),
        ) == Some(
            "PIN authentication rejected: "@ + match matched {
                Some(_) => "listener already paired with another device"@,
                None => "PIN authentication failed"@,
            },
        ),
{
}

/// Neither side finds fault with the messages that the other one sent.
pub proof fn sent_messages_are_taken(parties: Seq<PakeParty>, dialer: bool)
    requires
        parties.len() == PAKE_SLOTS,
        messages_are_well_formed(parties),
        forall|i: int| 0 <= i < parties.len() ==> (#[trigger] parties[i]).dialer != dialer,
    ensures
        exchange_error(dialer, sent_texts(parties)) is None,
{
    sent_slots_are_taken(parties, dialer, 0);
}

/// [`sent_messages_are_taken`] from slot `from` on.
proof fn sent_slots_are_taken(parties: Seq<PakeParty>, dialer: bool, from: nat)
    requires
        messages_are_well_formed(parties),
        forall|i: int| 0 <= i < parties.len() ==> (#[trigger] parties[i]).dialer != dialer,
    ensures
        first_slot_error(dialer, sent_texts(parties), from) is None,
    decreases parties.len() - from,
{
    if from < parties.len() {
        assert(parties[from as int].dialer != dialer);
        sent_slots_are_taken(parties, dialer, from + 1);
    }
}

/// Two devices that share a PIN find it. Where a dialer on `password` and a listener
/// whose slot `slot` runs on it read each other's messages, they hold one key there, and
/// the listener matches that slot or an earlier one.
pub proof fn a_shared_pin_is_matched(
    password: Seq<u8>,
    slot: usize,
    live: nat,
    dialer: Seq<PakeParty>,
    listener: Seq<PakeParty>,
    dialer_id: Seq<char>,
    listener_id: Seq<char>,
)
    requires
        slot < PAKE_SLOTS,
        slot < live,
        dialer.len() == PAKE_SLOTS,
        listener.len() == PAKE_SLOTS,
        dialer_party(dialer[slot as int], password, slot as nat, dialer_id, listener_id),
        listener_party(listener[slot as int], password, slot as nat, dialer_id, listener_id),
        messages_are_well_formed(dialer),
        messages_are_well_formed(listener),
        agrees(dialer[slot as int], listener[slot as int].sent),
        confirms_are_readable(
            slot_keys(dialer, sent_texts(listener)),
            Direction::Dialer,
            dialer_id,
            listener_id,
        ),
    ensures
        ({
            let dialer_keys = slot_keys(dialer, sent_texts(listener));
            let listener_keys = slot_keys(listener, sent_texts(dialer));
            let confirms = confirm_texts(dialer_keys, Direction::Dialer, dialer_id, listener_id);
            let matched = matched_slot(live, listener_keys, confirms, dialer_id, listener_id, 0);
            &&& dialer_keys[slot as int] == listener_keys[slot as int]
            &&& matched is Some
            &&& matched->0 <= slot
        }),
{
    let s = slot as int;
    let dialer_keys = slot_keys(dialer, sent_texts(listener));
    let listener_keys = slot_keys(listener, sent_texts(dialer));
    let confirms = confirm_texts(dialer_keys, Direction::Dialer, dialer_id, listener_id);
    assert(sent_texts(listener)[s] == base64_text(listener[s].sent));
    assert(sent_texts(dialer)[s] == base64_text(dialer[s].sent));
    assert(partners(dialer[s], listener[s]));
    assert(dialer_keys[s] == listener_keys[s]);
    assert(slot_confirmed(listener_keys, s, confirms[s], dialer_id, listener_id)) by {
        assert(confirms[s] == base64_text(
            confirmation(dialer_keys[s], Direction::Dialer, slot as nat, dialer_id, listener_id),
        ));
    }
    matched_slots_are_live(live, listener_keys, confirms, dialer_id, listener_id, 0);
    first_match_is_no_later(live, listener_keys, confirms, dialer_id, listener_id, 0, slot as nat);
}

/// A dialer takes the verdict of a listener that matched a slot where the two hold one
/// key, and to which the pairing was free.
pub proof fn an_honest_verdict_is_taken(
    dialer_keys: Seq<Seq<u8>>,
    listener_keys: Seq<Seq<u8>>,
    slot: usize,
    dialer_id: Seq<char>,
    listener_id: Seq<char>,
)
    requires
        slot < PAKE_SLOTS,
        dialer_keys[slot as int] == listener_keys[slot as int],
        verdict_is_readable(
            listener_keys,
            dialer_id,
            listener_id,
            verdict_for(listener_keys, dialer_id, listener_id, Some(slot), true),
        ),
    ensures
        verdict_error(
            dialer_keys,
            dialer_id,
            listener_id,
            verdict_for(listener_keys, dialer_id, listener_id, Some(slot), true),
        ) is None,
{
}

/// A confirmed slot on a live PIN is matched, unless an earlier one is.
pub proof fn first_match_is_no_later(
    live: nat,
    keys: Seq<Seq<u8>>,
    confirms: Seq<Seq<char>>,
    dialer_id: Seq<char>,
    listener_id: Seq<char>,
    from: nat,
    slot: nat,
)
    requires
        from <= slot < PAKE_SLOTS,
        slot < live,
        slot_confirmed(keys, slot as int, confirms[slot as int], dialer_id, listener_id),
    ensures
        matched_slot(live, keys, confirms, dialer_id, listener_id, from) is Some,
        matched_slot(live, keys, confirms, dialer_id, listener_id, from)->0 <= slot,
    decreases slot - from,
{
    if from < slot && !(from < live && slot_confirmed(
        keys,
        from as int,
        confirms[from as int],
        dialer_id,
        listener_id,
    )) {
        first_match_is_no_later(live, keys, confirms, dialer_id, listener_id, from + 1, slot);
    }
}

/// Whether a text holds no bar.
pub open spec fn bar_free(s: Seq<char>) -> bool {
    forall|i: int| 0 <= i < s.len() ==> #[trigger] s[i] != '|'
}

/// A text up to its first bar, and what follows, are fixed by the whole.
proof fn bar_splits_once(a: Seq<char>, x: Seq<char>, b: Seq<char>, y: Seq<char>)
    requires
        bar_free(a),
        bar_free(b),
        a + seq!['|'] + x == b + seq!['|'] + y,
    ensures
        a == b,
        x == y,
{
    let whole = a + seq!['|'] + x;
    let other = b + seq!['|'] + y;
    assert(whole[a.len() as int] == '|');
    assert(other[b.len() as int] == '|');
    if a.len() < b.len() {
        assert(other[a.len() as int] == b[a.len() as int]);
        assert(false);
    }
    if b.len() < a.len() {
        assert(whole[b.len() as int] == a[b.len() as int]);
        assert(false);
    }
    assert forall|i: int| 0 <= i < a.len() implies a[i] == b[i] by {
        assert(whole[i] == a[i]);
        assert(other[i] == b[i]);
    }
    assert(a =~= b);
    assert(whole.len() == other.len());
    assert forall|i: int| 0 <= i < x.len() implies x[i] == y[i] by {
        assert(whole[a.len() + 1 + i] == x[i]);
        assert(other[b.len() + 1 + i] == y[i]);
    }
    assert(x =~= y);
}

/// A confirmation is bound to its direction, its slot and both node ids: the text it is
/// computed over differs wherever one of them does.
pub proof fn confirm_texts_are_separate(
    dir: Direction,
    slot: nat,
    dialer_id: Seq<char>,
    listener_id: Seq<char>,
    other_dir: Direction,
    other_slot: nat,
    other_dialer_id: Seq<char>,
    other_listener_id: Seq<char>,
)
    requires
        slot < PAKE_SLOTS,
        other_slot < PAKE_SLOTS,
        bar_free(dialer_id),
        bar_free(other_dialer_id),
        confirm_text(dir, slot, dialer_id, listener_id) == confirm_text(
            other_dir,
            other_slot,
            other_dialer_id,
            other_listener_id,
        ),
    ensures
        dir == other_dir,
        slot == other_slot,
        dialer_id == other_dialer_id,
        listener_id == other_listener_id,
{
    reveal_strlit("dialer");
    reveal_strlit("listener");
    let domain = "duocb:pin-pake:v1|confirm|"@;
    let bar = seq!['|'];
    let a = dir.name() + bar + (decimal(slot) + bar + (dialer_id + bar + listener_id));
    let b = other_dir.name() + bar + (decimal(other_slot) + bar + (other_dialer_id + bar
        + other_listener_id));
    assert(confirm_text(dir, slot, dialer_id, listener_id) =~= domain + a);
    assert(confirm_text(other_dir, other_slot, other_dialer_id, other_listener_id) =~= domain + b);
    assert(a =~= (domain + a).skip(domain.len() as int));
    assert(b =~= (domain + b).skip(domain.len() as int));
    assert(bar_free(dir.name()));
    assert(bar_free(other_dir.name()));
    bar_splits_once(
        dir.name(),
        decimal(slot) + bar + (dialer_id + bar + listener_id),
        other_dir.name(),
        decimal(other_slot) + bar + (other_dialer_id + bar + other_listener_id),
    );
    assert("dialer"@[0] != "listener"@[0]);
    bar_splits_once(
        decimal(slot),
        dialer_id + bar + listener_id,
        decimal(other_slot),
        other_dialer_id + bar + other_listener_id,
    );
    assert(decimal(slot)[0] == decimal(other_slot)[0]);
    bar_splits_once(dialer_id, listener_id, other_dialer_id, other_listener_id);
}

/// The identity of a side is bound to its role, its slot and its node id: it differs
/// wherever one of them does.
pub proof fn identities_are_separate(
    side: Direction,
    slot: nat,
    id: Seq<char>,
    other_side: Direction,
    other_slot: nat,
    other_id: Seq<char>,
)
    requires
        slot < PAKE_SLOTS,
        other_slot < PAKE_SLOTS,
        identity_text(side, slot, id) == identity_text(other_side, other_slot, other_id),
    ensures
        side == other_side,
        slot == other_slot,
        id == other_id,
{
    reveal_strlit("dialer");
    reveal_strlit("listener");
    let domain = "duocb:pin-pake:v1|"@;
    let bar = seq!['|'];
    let a = side.name() + bar + (decimal(slot) + bar + id);
    let b = other_side.name() + bar + (decimal(other_slot) + bar + other_id);
    assert(identity_text(side, slot, id) =~= domain + a);
    assert(identity_text(other_side, other_slot, other_id) =~= domain + b);
    assert(a =~= (domain + a).skip(domain.len() as int));
    assert(b =~= (domain + b).skip(domain.len() as int));
    assert(bar_free(side.name()));
    assert(bar_free(other_side.name()));
    bar_splits_once(
        side.name(),
        decimal(slot) + bar + id,
        other_side.name(),
        decimal(other_slot) + bar + other_id,
    );
    assert("dialer"@[0] != "listener"@[0]);
    bar_splits_once(decimal(slot), id, decimal(other_slot), other_id);
    assert(decimal(slot)[0] == decimal(other_slot)[0]);
}

/// A slot is confirmed exactly by the code that its own key gives over the dialer's
/// direction, the slot and both node ids; the key of a slot comes of that slot's own
/// exchange and message.
pub proof fn confirmations_prove_the_key_of_their_slot(
    parties: Seq<PakeParty>,
    received: Seq<Seq<char>>,
    slot: int,
    text: Seq<char>,
    dialer_id: Seq<char>,
    listener_id: Seq<char>,
)
    requires
        0 <= slot < parties.len(),
    ensures
        slot_keys(parties, received).len() == parties.len(),
        slot_confirmed(slot_keys(parties, received), slot, text, dialer_id, listener_id)
            <==> base64_bytes(text) == Some(
            hmac_sha256(
                pake_key(parties[slot], base64_bytes(received[slot])->0),
                encode_utf8(
                    "duocb:pin-pake:v1|confirm|dialer|"@ + decimal(slot as nat) + seq!['|']
                        + dialer_id + seq!['|'] + listener_id,
                ),
            ),
        ),
{
    reveal_strlit("duocb:pin-pake:v1|confirm|dialer|");
    reveal_strlit("duocb:pin-pake:v1|confirm|");
    reveal_strlit("dialer");
    assert("duocb:pin-pake:v1|confirm|dialer|"@ =~= "duocb:pin-pake:v1|confirm|"@ + "dialer"@
        + seq!['|']);
    assert(confirm_text(Direction::Dialer, slot as nat, dialer_id, listener_id)
        =~= "duocb:pin-pake:v1|confirm|dialer|"@ + decimal(slot as nat) + seq!['|'] + dialer_id
        + seq!['|'] + listener_id);
}

/// A side goes on with the other's messages exactly where there is one for each of the two
/// slots, and each is readable and has the shape and the side of such a message.
pub proof fn well_formed_messages_are_taken(dialer: bool, messages: Seq<Seq<char>>)
    ensures
        exchange_error(dialer, messages) is None <==> {
            &&& messages.len() == 2
            &&& forall|i: int|
                0 <= i < 2 ==> base64_bytes(#[trigger] messages[i]) is Some && base64_bytes(
                    messages[i],
                )->0.len() == 33 && base64_bytes(messages[i])->0[0] == (if dialer {
                    0x42u8
                } else {
                    0x41u8
                }) && crate::pake::curve_element(base64_bytes(messages[i])->0.skip(1))
        },
{
    reveal_with_fuel(first_slot_error, 3);
    if messages.len() == 2 {
        let (a, b) = (messages[0], messages[1]);
    }
}

/// A dialer takes a verdict exactly where it accepts, names one of the two slots, and
/// carries the listener's code for that slot under the key that the dialer holds there.
pub proof fn dialers_check_the_verdict(
    keys: Seq<Seq<u8>>,
    dialer_id: Seq<char>,
    listener_id: Seq<char>,
    verdict: SlotVerdictView,
)
    ensures
        verdict_error(keys, dialer_id, listener_id, verdict) is None <==> {
            &&& verdict.accepted
            &&& verdict.slot is Some && verdict.slot->0 < 2
            &&& verdict.confirm is Some && base64_bytes(verdict.confirm->0) == Some(
                hmac_sha256(
                    keys[verdict.slot->0 as int],
                    encode_utf8(
                        "duocb:pin-pake:v1|confirm|listener|"@ + decimal(verdict.slot->0 as nat)
                            + seq!['|'] + dialer_id + seq!['|'] + listener_id,
                    ),
                ),
            )
        },
{
    reveal_strlit("duocb:pin-pake:v1|confirm|listener|");
    reveal_strlit("duocb:pin-pake:v1|confirm|");
    reveal_strlit("listener");
    assert("duocb:pin-pake:v1|confirm|listener|"@ =~= "duocb:pin-pake:v1|confirm|"@ + "listener"@
        + seq!['|']);
    let slot = verdict.slot->0 as nat;
    assert(confirm_text(Direction::Listener, slot, dialer_id, listener_id)
        =~= "duocb:pin-pake:v1|confirm|listener|"@ + decimal(slot) + seq!['|'] + dialer_id
        + seq!['|'] + listener_id);
}

/// A listener accepts exactly where a slot was matched and the pairing was free; it then
/// names that slot and has nothing to report. Otherwise it names none, sends no code, and
/// says what was wrong.
pub proof fn acceptance_needs_a_slot_and_the_pairing(
    keys: Seq<Seq<u8>>,
    dialer_id: Seq<char>,
    listener_id: Seq<char>,
    matched: Option<usize>,
    committed: bool,
)
    ensures
        ({
            let verdict = verdict_for(keys, dialer_id, listener_id, matched, committed);
            &&& verdict.accepted <==> matched is Some && committed
            &&& listener_report(matched, committed) is None <==> matched is Some && committed
            &&& verdict.slot == if verdict.accepted {
                matched
            } else {
                None
            }
            &&& verdict.confirm is Some <==> verdict.accepted
            &&& verdict.reason is None <==> verdict.accepted
            &&& !committed && matched is Some ==> verdict.reason == Some(
                "listener already paired with another device"@,
            )
            &&& matched is None ==> verdict.reason == Some("PIN authentication failed"@)
        }),
{
}

/// Confirmations are looked at exactly where there is one for each of the two slots.
pub proof fn confirmations_come_one_for_each_slot(confirms: Seq<Seq<char>>)
    ensures
        confirms_error(confirms) is None <==> confirms.len() == 2,
{
}

/// Messages that a side does not go on with are refused for their number, or else for what
/// is off with the first of them, by its slot.
pub proof fn refused_messages_are_named(messages: Seq<Seq<char>>)
    ensures
        messages.len() != 2 ==> exchange_error(true, messages) == Some(
            "listener"@ + " sent "@ + decimal(messages.len()) + " PAKE messages, expected "@
                + decimal(2),
        ) && exchange_error(false, messages) == Some(
            "dialer"@ + " sent "@ + decimal(messages.len()) + " PAKE messages, expected "@
                + decimal(2),
        ),
        messages.len() == 2 ==> {
            &&& base64_bytes(messages[0]) is None ==> exchange_error(true, messages) == Some(
                "decoding the listener's PAKE message"@,
            ) && exchange_error(false, messages) == Some("decoding the dialer's PAKE message"@)
            &&& base64_bytes(messages[0]) matches Some(m) ==> {
                &&& m.len() != 33 ==> exchange_error(false, messages) == Some(
                    "finishing PAKE slot "@ + decimal(0) + ": "@ + "invalid length"@,
                )
                &&& m.len() == 33 && m[0] != 0x41 ==> exchange_error(false, messages) == Some(
                    "finishing PAKE slot "@ + decimal(0) + ": "@ + "bad side"@,
                )
                &&& m.len() == 33 && m[0] != 0x42 ==> exchange_error(true, messages) == Some(
                    "finishing PAKE slot "@ + decimal(0) + ": "@ + "bad side"@,
                )
                &&& m.len() == 33 && m[0] == 0x41 && !crate::pake::curve_element(m.skip(1))
                    ==> exchange_error(false, messages) == Some(
                    "finishing PAKE slot "@ + decimal(0) + ": "@ + "corrupt message"@,
                )
            }
        },
{
    reveal_with_fuel(first_slot_error, 3);
}

/// A verdict that a dialer does not take is refused for what it lacks.
pub proof fn refused_verdicts_are_named(
    keys: Seq<Seq<u8>>,
    dialer_id: Seq<char>,
    listener_id: Seq<char>,
    verdict: SlotVerdictView,
)
    ensures
        !verdict.accepted && verdict.reason is Some ==> verdict_error(
            keys,
            dialer_id,
            listener_id,
            verdict,
        ) == Some("PIN authentication rejected: "@ + verdict.reason->0),
        !verdict.accepted && verdict.reason is None ==> verdict_error(
            keys,
            dialer_id,
            listener_id,
            verdict,
        ) == Some("PIN authentication rejected: "@ + "unknown"@),
        verdict.accepted && verdict.slot is None ==> verdict_error(
            keys,
            dialer_id,
            listener_id,
            verdict,
        ) == Some("listener accepted but named no slot"@),
        verdict.accepted ==> (verdict.slot matches Some(slot) ==> {
            &&& slot >= 2 ==> verdict_error(keys, dialer_id, listener_id, verdict) == Some(
                "listener named out-of-range slot "@ + decimal(slot as nat),
            )
            &&& slot < 2 && verdict.confirm is None ==> verdict_error(
                keys,
                dialer_id,
                listener_id,
                verdict,
            ) == Some("listener accepted but sent no confirmation"@)
        }),
{
}

} // verus!
