//! Device identities: a user-chosen short name and a permanent random suffix,
//! joined as `<name>_<suffix>`.

use rand::Rng;
use vstd::prelude::*;
use vstd::string::*;

use crate::text::{chars_of, find_char, first_at, first_at_finds, split_once};

verus! {

/// Unambiguous mixed-case alphanumerics: ASCII digits and letters without
/// `0 O o 1 l I`.
pub const UNAMBIGUOUS_ALPHANUM: &'static str =
    "23456789ABCDEFGHJKLMNPQRSTUVWXYZabcdefghijkmnpqrstuvwxyz";

pub const SUFFIX_LEN: usize = 8;

pub const NAME_MAX_LEN: usize = 24;

pub const IDENTITY_SEPARATOR: char = '_';

/// Whether `c` is one of the unambiguous alphanumerics.
pub open spec fn unambiguous(c: char) -> bool {
    ||| '2' <= c <= '9'
    ||| ('A' <= c <= 'Z' && c != 'I' && c != 'O')
    ||| ('a' <= c <= 'z' && c != 'l' && c != 'o')
}

/// Whether `s` can be a permanent suffix.
pub open spec fn valid_suffix(s: Seq<char>) -> bool {
    s.len() == SUFFIX_LEN && forall|i: int| 0 <= i < s.len() ==> unambiguous(#[trigger] s[i])
}

/// Whether `c` may stand in a device name.
pub open spec fn name_char(c: char) -> bool {
    '0' <= c <= '9' || 'A' <= c <= 'Z' || 'a' <= c <= 'z' || c == '-'
}

/// The first character from index `i` on that no device name may hold.
pub open spec fn first_bad(s: Seq<char>, i: int) -> Option<char>
    decreases s.len() - i,
{
    if i < 0 || i >= s.len() {
        None
    } else if !name_char(s[i]) {
        Some(s[i])
    } else {
        first_bad(s, i + 1)
    }
}

/// Whether `s` can be a device name.
pub open spec fn valid_name(s: Seq<char>) -> bool {
    1 <= s.len() <= NAME_MAX_LEN && forall|i: int| 0 <= i < s.len() ==> name_char(#[trigger] s[i])
}

/// How `{:?}` shows a character.
pub uninterp spec fn char_debug(c: char) -> Seq<char>;

/// Why `s` is no device name, or `None` where it is one.
pub open spec fn name_error(s: Seq<char>) -> Option<Seq<char>> {
    if s.len() == 0 {
        Some("device name must not be empty"@)
    } else if s.len() > NAME_MAX_LEN {
        Some("device name must be at most 24 characters"@)
    } else {
        match first_bad(s, 0) {
            Some(c) => Some(
                "device name may only contain letters, digits, and '-' (found "@ + char_debug(c)
                    + ")"@,
            ),
            None => None,
        }
    }
}

/// The final name of a device.
pub open spec fn displayed(name: Seq<char>, suffix: Seq<char>) -> Seq<char> {
    name + seq![IDENTITY_SEPARATOR] + suffix
}

/// The name and the suffix that a final name holds, or why it holds none.
pub open spec fn split_identity(display: Seq<char>) -> Result<(Seq<char>, Seq<char>), Seq<char>> {
    match split_once(display, IDENTITY_SEPARATOR) {
        None => Err("device identity must contain a permanent suffix"@),
        Some((name, suffix)) => if suffix.contains(IDENTITY_SEPARATOR) {
            Err("device identity contains more than one separator"@)
        } else {
            match name_error(name) {
                Some(e) => Err(e),
                None => if valid_suffix(suffix) {
                    Ok((name, suffix))
                } else {
                    Err("device identity has an invalid permanent suffix"@)
                },
            }
        },
    }
}

proof fn first_bad_decides(s: Seq<char>, i: int)
    requires
        0 <= i <= s.len(),
    ensures
        first_bad(s, i) is None <==> forall|j: int| i <= j < s.len() ==> name_char(#[trigger] s[j]),
    decreases s.len() - i,
{
    if i < s.len() && name_char(s[i]) {
        first_bad_decides(s, i + 1);
    }
}

/// A name is refused exactly when it is no valid name.
pub proof fn only_valid_names_pass(s: Seq<char>)
    ensures
        name_error(s) is None <==> valid_name(s),
{
    first_bad_decides(s, 0);
}

/// Joining a valid name and a valid suffix and splitting the result gives both
/// back.
pub proof fn joined_identity_splits_back(name: Seq<char>, suffix: Seq<char>)
    requires
        valid_name(name),
        valid_suffix(suffix),
    ensures
        split_identity(displayed(name, suffix)) == Ok::<(Seq<char>, Seq<char>), Seq<char>>(
            (name, suffix),
        ),
{
    let display = displayed(name, suffix);
    only_valid_names_pass(name);
    first_at_finds(display, IDENTITY_SEPARATOR, 0);
    assert(display[name.len() as int] == IDENTITY_SEPARATOR);
    let at = first_at(display, IDENTITY_SEPARATOR, 0)->0;
    if at < name.len() {
        assert(display[at] == name[at]);
        assert(name_char(name[at]));
    }
    assert(display.take(at) =~= name);
    assert(display.skip(at + 1) =~= suffix);
}

/// A valid name joined with a suffix splits exactly where the suffix is valid.
pub proof fn only_valid_suffixes_split(name: Seq<char>, suffix: Seq<char>)
    requires
        valid_name(name),
    ensures
        split_identity(displayed(name, suffix)) is Ok <==> valid_suffix(suffix),
{
    if valid_suffix(suffix) {
        joined_identity_splits_back(name, suffix);
    }
    let display = displayed(name, suffix);
    first_at_finds(display, IDENTITY_SEPARATOR, 0);
    assert(display[name.len() as int] == IDENTITY_SEPARATOR);
    let at = first_at(display, IDENTITY_SEPARATOR, 0)->0;
    if at < name.len() {
        assert(display[at] == name[at]);
        assert(name_char(name[at]));
    }
    assert(display.skip(at + 1) =~= suffix);
}

/// A final name that splits is the join of its two parts, and both are valid.
pub proof fn split_identity_joins_back(display: Seq<char>)
    requires
        split_identity(display) is Ok,
    ensures
        ({
            let (name, suffix) = split_identity(display)->Ok_0;
            valid_name(name) && valid_suffix(suffix) && displayed(name, suffix) == display
        }),
{
    let (name, suffix) = split_identity(display)->Ok_0;
    first_at_finds(display, IDENTITY_SEPARATOR, 0);
    only_valid_names_pass(name);
    assert(displayed(name, suffix) =~= display);
}

/// The alphabet holds unambiguous characters only.
proof fn alphabet_is_unambiguous()
    ensures
        UNAMBIGUOUS_ALPHANUM@.len() == 56,
        forall|i: int| 0 <= i < 56 ==> unambiguous(#[trigger] UNAMBIGUOUS_ALPHANUM@[i]),
{
    reveal_strlit("23456789ABCDEFGHJKLMNPQRSTUVWXYZabcdefghijkmnpqrstuvwxyz");
    let a = UNAMBIGUOUS_ALPHANUM@;
    assert(a[0] == '2' && a[1] == '3' && a[2] == '4' && a[3] == '5');
    assert(a[4] == '6' && a[5] == '7' && a[6] == '8' && a[7] == '9');
    assert(a[8] == 'A' && a[9] == 'B' && a[10] == 'C' && a[11] == 'D');
    assert(a[12] == 'E' && a[13] == 'F' && a[14] == 'G' && a[15] == 'H');
    assert(a[16] == 'J' && a[17] == 'K' && a[18] == 'L' && a[19] == 'M');
    assert(a[20] == 'N' && a[21] == 'P' && a[22] == 'Q' && a[23] == 'R');
    assert(a[24] == 'S' && a[25] == 'T' && a[26] == 'U' && a[27] == 'V');
    assert(a[28] == 'W' && a[29] == 'X' && a[30] == 'Y' && a[31] == 'Z');
    assert(a[32] == 'a' && a[33] == 'b' && a[34] == 'c' && a[35] == 'd');
    assert(a[36] == 'e' && a[37] == 'f' && a[38] == 'g' && a[39] == 'h');
    assert(a[40] == 'i' && a[41] == 'j' && a[42] == 'k' && a[43] == 'm');
    assert(a[44] == 'n' && a[45] == 'p' && a[46] == 'q' && a[47] == 'r');
    assert(a[48] == 's' && a[49] == 't' && a[50] == 'u' && a[51] == 'v');
    assert(a[52] == 'w' && a[53] == 'x' && a[54] == 'y' && a[55] == 'z');
    assert forall|i: int| 0 <= i < 56 implies unambiguous(#[trigger] a[i]) by {
        assert({
            ||| i == 0 || i == 1 || i == 2 || i == 3 || i == 4 || i == 5 || i == 6 || i == 7
            ||| i == 8 || i == 9 || i == 10 || i == 11 || i == 12 || i == 13 || i == 14 || i == 15
            ||| i == 16 || i == 17 || i == 18 || i == 19 || i == 20 || i == 21 || i == 22 || i == 23
            ||| i == 24 || i == 25 || i == 26 || i == 27 || i == 28 || i == 29 || i == 30 || i == 31
            ||| i == 32 || i == 33 || i == 34 || i == 35 || i == 36 || i == 37 || i == 38 || i == 39
            ||| i == 40 || i == 41 || i == 42 || i == 43 || i == 44 || i == 45 || i == 46 || i == 47
            ||| i == 48 || i == 49 || i == 50 || i == 51 || i == 52 || i == 53 || i == 54 || i == 55
        });
    }
}

/// `rand::Rng::random_range` over `0..bound`: some number below `bound`.
#[verifier::external_body]
fn random_index(bound: usize) -> (r: usize)
    requires
        bound > 0,
    ensures
        r < bound,
{
    rand::rng().random_range(0..bound)
}

/// The suffix spelled by `draws`, each an index into the alphabet.
pub fn suffix_of(draws: &Vec<usize>) -> (r: String)
    requires
        draws@.len() == SUFFIX_LEN,
        forall|i: int| 0 <= i < draws@.len() ==> #[trigger] draws@[i] < 56,
    ensures
        r@ == Seq::new(
            SUFFIX_LEN as nat,
            |i: int| UNAMBIGUOUS_ALPHANUM@[draws@[i] as int],
        ),
        valid_suffix(r@),
{
    proof {
        alphabet_is_unambiguous();
    }
    let mut out = String::new();
    let mut i: usize = 0;
    while i < SUFFIX_LEN
        invariant
            i <= SUFFIX_LEN,
            draws@.len() == SUFFIX_LEN,
            UNAMBIGUOUS_ALPHANUM@.len() == 56,
            forall|j: int| 0 <= j < draws@.len() ==> #[trigger] draws@[j] < 56,
            out@ == Seq::new(i as nat, |j: int| UNAMBIGUOUS_ALPHANUM@[draws@[j] as int]),
        decreases SUFFIX_LEN - i,
    {
        out.push(UNAMBIGUOUS_ALPHANUM.get_char(draws[i]));
        i += 1;
    }
    out
}

/// Mints a fresh permanent per-installation suffix.
pub fn generate_suffix() -> (r: String)
    ensures
        valid_suffix(r@),
{
    let mut draws: Vec<usize> = Vec::new();
    let mut i: usize = 0;
    while i < SUFFIX_LEN
        invariant
            i <= SUFFIX_LEN,
            draws@.len() == i,
            forall|j: int| 0 <= j < draws@.len() ==> #[trigger] draws@[j] < 56,
        decreases SUFFIX_LEN - i,
    {
        draws.push(random_index(56));
        i += 1;
    }
    suffix_of(&draws)
}

/// Whether `suffix` is a permanent suffix: eight unambiguous alphanumerics.
pub fn is_valid_suffix(suffix: &str) -> (r: bool)
    ensures
        r == valid_suffix(suffix@),
{
    let chars = chars_of(suffix);
    if chars.len() != SUFFIX_LEN {
        return false;
    }
    let mut i: usize = 0;
    while i < chars.len()
        invariant
            i <= chars@.len(),
            chars@ == suffix@,
            forall|j: int| 0 <= j < i ==> unambiguous(#[trigger] chars@[j]),
        decreases chars@.len() - i,
    {
        let c: char = chars[i];
        let good = ('2' <= c && c <= '9') || ('A' <= c && c <= 'Z' && c != 'I' && c != 'O') || ('a'
            <= c && c <= 'z' && c != 'l' && c != 'o');
        if !good {
            return false;
        }
        i += 1;
    }
    true
}

/// `{:?}` of a `char`: the character between single quotes, escaped where it is
/// not printable. How each character looks there is not stated.
#[verifier::external_body]
fn debug_of(c: char) -> (r: String)
    ensures
        r@ == char_debug(c),
{
    format!("{c:?}")
}

/// Validates a user-chosen device name: 1 to 24 ASCII letters, digits, or `-`.
pub fn validate_name(name: &str) -> (r: Result<(), String>)
    ensures
        match r {
            Ok(()) => name_error(name@) is None && valid_name(name@),
            Err(e) => name_error(name@) == Some(e@) && !valid_name(name@),
        },
{
    proof {
        only_valid_names_pass(name@);
    }
    let chars = chars_of(name);
    if chars.len() == 0 {
        return Err("device name must not be empty".to_owned());
    }
    if chars.len() > NAME_MAX_LEN {
        return Err("device name must be at most 24 characters".to_owned());
    }
    let mut i: usize = 0;
    while i < chars.len()
        invariant
            i <= chars@.len(),
            first_bad(chars@, 0) == first_bad(chars@, i as int),
            0 < chars@.len() <= NAME_MAX_LEN,
            chars@ == name@,
            name_error(name@) is None <==> valid_name(name@),
        decreases chars@.len() - i,
    {
        let c: char = chars[i];
        let good = ('0' <= c && c <= '9') || ('A' <= c && c <= 'Z') || ('a' <= c && c <= 'z') || c
            == '-';
        if !good {
            let mut e =
                "device name may only contain letters, digits, and '-' (found ".to_owned();
            e.append(debug_of(c).as_str());
            e.append(")");
            return Err(e);
        }
        i += 1;
    }
    Ok(())
}

/// The final name of a device: `<name>_<suffix>`.
pub fn display_identity(name: &str, suffix: &str) -> (r: String)
    ensures
        r@ == displayed(name@, suffix@),
{
    let mut out = name.to_owned();
    out.push(IDENTITY_SEPARATOR);
    out.append(suffix);
    out
}

/// Validates and splits the final name stored in an identity card.
pub fn split_display_identity(display: &str) -> (r: Result<(&str, &str), String>)
    ensures
        match r {
            Ok((name, suffix)) => split_identity(display@) == Ok::<
                (Seq<char>, Seq<char>),
                Seq<char>,
            >((name@, suffix@)),
            Err(e) => split_identity(display@) == Err::<(Seq<char>, Seq<char>), Seq<char>>(e@),
        },
{
    let chars = chars_of(display);
    let at: usize = match find_char(&chars, IDENTITY_SEPARATOR, 0) {
        Some(at) => at,
        None => return Err("device identity must contain a permanent suffix".to_owned()),
    };
    let name: &str = display.substring_char(0, at);
    let suffix: &str = display.substring_char(at + 1, chars.len());
    assert(suffix@ =~= display@.skip(at + 1));
    assert(name@ =~= display@.take(at as int));
    proof {
        first_at_finds(display@, IDENTITY_SEPARATOR, at + 1);
    }
    match find_char(&chars, IDENTITY_SEPARATOR, at + 1) {
        Some(next) => {
            assert(suffix@[next - (at + 1)] == IDENTITY_SEPARATOR);
            return Err("device identity contains more than one separator".to_owned());
        },
        None => {
            assert forall|j: int| 0 <= j < suffix@.len() implies suffix@[j]
                != IDENTITY_SEPARATOR by {
                assert(suffix@[j] == display@[at + 1 + j]);
            }
        },
    }
    match validate_name(name) {
        Ok(()) => {},
        Err(e) => return Err(e),
    }
    if !is_valid_suffix(suffix) {
        return Err("device identity has an invalid permanent suffix".to_owned());
    }
    Ok((name, suffix))
}

// ---------------------------------------------------------------------------
// What names and suffixes are
// ---------------------------------------------------------------------------

/// A name is 1 to 24 characters, each a letter or digit of ASCII or a dash.
pub proof fn names_are_letters_digits_and_dashes(s: Seq<char>)
    ensures
        name_error(s) is None <==> 1 <= s.len() <= 24 && forall|i: int|
            0 <= i < s.len() ==> ('0' <= #[trigger] s[i] <= '9') || ('A' <= s[i] <= 'Z') || ('a'
                <= s[i] <= 'z') || s[i] == '-',
        s.len() == 0 ==> name_error(s) == Some("device name must not be empty"@),
        s.len() > 24 ==> name_error(s) == Some("device name must be at most 24 characters"@),
{
    only_valid_names_pass(s);
    if valid_name(s) {
        assert forall|i: int| 0 <= i < s.len() implies ('0' <= #[trigger] s[i] <= '9') || ('A'
            <= s[i] <= 'Z') || ('a' <= s[i] <= 'z') || s[i] == '-' by {
            assert(name_char(s[i]));
        }
    } else if 1 <= s.len() <= 24 {
        let i = choose|i: int| 0 <= i < s.len() && !name_char(#[trigger] s[i]);
        assert(!name_char(s[i]));
    }
}

/// A name with a character that it may not hold is refused for the first such character.
pub proof fn the_first_bad_character_is_named(s: Seq<char>, i: int)
    requires
        0 <= i < s.len() <= 24,
        !name_char(s[i]),
        forall|j: int| 0 <= j < i ==> name_char(#[trigger] s[j]),
    ensures
        name_error(s) == Some(
            "device name may only contain letters, digits, and '-' (found "@ + char_debug(s[i])
                + ")"@,
        ),
{
    first_bad_from(s, i, 0);
}

proof fn first_bad_from(s: Seq<char>, i: int, from: int)
    requires
        0 <= from <= i < s.len(),
        !name_char(s[i]),
        forall|j: int| from <= j < i ==> name_char(#[trigger] s[j]),
    ensures
        first_bad(s, from) == Some(s[i]),
    decreases i - from,
{
    if from < i {
        assert(name_char(s[from]));
        first_bad_from(s, i, from + 1);
    }
}

/// A suffix is eight characters of the alphabet, and any eight of them are one.
pub proof fn suffixes_are_drawn_from_the_alphabet(s: Seq<char>)
    ensures
        valid_suffix(s) <==> s.len() == 8 && forall|i: int|
            0 <= i < s.len() ==> UNAMBIGUOUS_ALPHANUM@.contains(#[trigger] s[i]),
{
    assert forall|c: char| unambiguous(c) <==> #[trigger] UNAMBIGUOUS_ALPHANUM@.contains(c) by {
        the_alphabet_is_complete(c);
    }
    if valid_suffix(s) {
        assert forall|i: int| 0 <= i < s.len() implies UNAMBIGUOUS_ALPHANUM@.contains(
            #[trigger] s[i],
        ) by {
            assert(unambiguous(s[i]));
        }
    }
}

/// The alphabet holds every unambiguous character, and no other.
proof fn the_alphabet_is_complete(c: char)
    ensures
        unambiguous(c) <==> UNAMBIGUOUS_ALPHANUM@.contains(c),
{
    alphabet_is_unambiguous();
    reveal_strlit("23456789ABCDEFGHJKLMNPQRSTUVWXYZabcdefghijkmnpqrstuvwxyz");
    let a = UNAMBIGUOUS_ALPHANUM@;
    let n = c as int;
    if unambiguous(c) {
        let at: int = if c <= '9' {
            n - 50
        } else if c <= 'H' {
            n - 57
        } else if c <= 'N' {
            n - 58
        } else if c <= 'Z' {
            n - 59
        } else if c <= 'k' {
            n - 65
        } else if c <= 'n' {
            n - 66
        } else {
            n - 67
        };
        assert(0 <= at < 56);
        the_alphabet_is_spelled(at);
        assert(a[at] == c);
    } else if a.contains(c) {
        let i = choose|i: int| 0 <= i < a.len() && a[i] == c;
        assert(unambiguous(a[i]));
    }
}

/// The number of each character of the alphabet.
proof fn the_alphabet_is_spelled(i: int)
    requires
        0 <= i < 56,
    ensures
        UNAMBIGUOUS_ALPHANUM@.len() == 56,
        UNAMBIGUOUS_ALPHANUM@[i] as int == if i < 8 {
            i + 50
        } else if i < 16 {
            i + 57
        } else if i < 21 {
            i + 58
        } else if i < 32 {
            i + 59
        } else if i < 43 {
            i + 65
        } else if i < 45 {
            i + 66
        } else {
            i + 67
        },
{
    reveal_strlit("23456789ABCDEFGHJKLMNPQRSTUVWXYZabcdefghijkmnpqrstuvwxyz");
    let a = UNAMBIGUOUS_ALPHANUM@;
    assert(a[0] == '2' && a[1] == '3' && a[2] == '4' && a[3] == '5');
    assert(a[4] == '6' && a[5] == '7' && a[6] == '8' && a[7] == '9');
    assert(a[8] == 'A' && a[9] == 'B' && a[10] == 'C' && a[11] == 'D');
    assert(a[12] == 'E' && a[13] == 'F' && a[14] == 'G' && a[15] == 'H');
    assert(a[16] == 'J' && a[17] == 'K' && a[18] == 'L' && a[19] == 'M');
    assert(a[20] == 'N' && a[21] == 'P' && a[22] == 'Q' && a[23] == 'R');
    assert(a[24] == 'S' && a[25] == 'T' && a[26] == 'U' && a[27] == 'V');
    assert(a[28] == 'W' && a[29] == 'X' && a[30] == 'Y' && a[31] == 'Z');
    assert(a[32] == 'a' && a[33] == 'b' && a[34] == 'c' && a[35] == 'd');
    assert(a[36] == 'e' && a[37] == 'f' && a[38] == 'g' && a[39] == 'h');
    assert(a[40] == 'i' && a[41] == 'j' && a[42] == 'k' && a[43] == 'm');
    assert(a[44] == 'n' && a[45] == 'p' && a[46] == 'q' && a[47] == 'r');
    assert(a[48] == 's' && a[49] == 't' && a[50] == 'u' && a[51] == 'v');
    assert(a[52] == 'w' && a[53] == 'x' && a[54] == 'y' && a[55] == 'z');
}

/// The final name shows the name, one separator and the suffix, in this order.
pub proof fn final_names_hold_both_parts(name: Seq<char>, suffix: Seq<char>)
    ensures
        displayed(name, suffix) == name + seq!['_'] + suffix,
{
}

} // verus!
