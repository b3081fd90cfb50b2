//! The shape of a PIN: eight characters, shown in two groups of four.

use vstd::prelude::*;
use vstd::string::*;

verus! {

/// Characters of a PIN.
pub const PIN_LEN: usize = 8;

/// Characters of a displayed group.
pub const PIN_GROUP_LEN: usize = 4;

/// Seconds of a rotation period.
pub const BUCKET_SECS: u64 = 60;

/// The display form of a PIN, `XXXX-XXXX`.
pub open spec fn displayed_pin(pin: Seq<char>) -> Seq<char> {
    pin.take(PIN_GROUP_LEN as int) + seq!['-'] + pin.skip(PIN_GROUP_LEN as int)
}

/// Renders a PIN for display.
pub fn format_pin(pin: &str) -> (r: String)
    requires
        pin@.len() == PIN_LEN,
    ensures
        r@ == displayed_pin(pin@),
        r@.len() == PIN_LEN + 1,
{
    let mut out = pin.substring_char(0, PIN_GROUP_LEN).to_owned();
    out.push('-');
    out.append(pin.substring_char(PIN_GROUP_LEN, PIN_LEN));
    assert(out@ =~= displayed_pin(pin@));
    out
}

/// A displayed PIN is the PIN with one dash in its middle.
pub proof fn a_displayed_pin_is_the_pin_with_a_dash(pin: Seq<char>, i: int)
    requires
        pin.len() == PIN_LEN,
    ensures
        displayed_pin(pin).len() == 9,
        displayed_pin(pin)[4] == '-',
        0 <= i < 4 ==> displayed_pin(pin)[i] == pin[i],
        4 <= i < 8 ==> displayed_pin(pin)[i + 1] == pin[i],
{
}

} // verus!
