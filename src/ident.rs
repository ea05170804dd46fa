//! Random version-4 identifiers and the text of one formatted entry.

use crate::style::FormatStyle;
use vstd::prelude::*;

verus! {

/// The `k`-th hexadecimal digit of `v`, counting from the most significant (`0 <= k < 32`).
pub open spec fn nibble(v: u128, k: int) -> u128 {
    (v >> ((124 - 4 * k) as u128)) & 15u128
}

/// The lowercase hexadecimal digit for `d < 16`.
pub open spec fn hex_digit(d: u128) -> char {
    seq!['0', '1', '2', '3', '4', '5', '6', '7', '8', '9', 'a', 'b', 'c', 'd', 'e', 'f'][d as int]
}

/// Whether position `i` of the hyphenated text holds a dash.
pub open spec fn is_dash_position(i: int) -> bool {
    i == 8 || i == 13 || i == 18 || i == 23
}

/// Which hexadecimal digit of the value stands at position `i` of the hyphenated text.
pub open spec fn digit_at(i: int) -> int {
    if i < 8 {
        i
    } else if i < 13 {
        i - 1
    } else if i < 18 {
        i - 2
    } else if i < 23 {
        i - 3
    } else {
        i - 4
    }
}

/// The canonical text of an identifier: 32 lowercase hexadecimal digits,
/// most significant first, grouped 8-4-4-4-12 by dashes.
pub open spec fn canonical_text(v: u128) -> Seq<char> {
    Seq::new(36, |i: int| if is_dash_position(i) { '-' } else { hex_digit(nibble(v, digit_at(i))) })
}

/// A version-4 identifier: the version digit reads 4 and the variant bits read `10`.
pub open spec fn is_v4(v: u128) -> bool {
    nibble(v, 12) == 4 && (nibble(v, 16) >> 2u128) == 2
}

/// The entry for identifier text `id` in the given style.
pub open spec fn styled(id: Seq<char>, style: FormatStyle) -> Seq<char> {
    match style {
        FormatStyle::Bare => id,
        FormatStyle::BareComma => id + seq![','],
        FormatStyle::Quoted => seq!['"'] + id + seq!['"'],
        _ => seq!['"'] + id + seq!['"', ','],
    }
}

/// Whether `s` is the entry, in the given style, of some version-4 identifier.
pub open spec fn is_entry(s: Seq<char>, style: FormatStyle) -> bool {
    exists|v: u128| is_v4(v) && s == #[trigger] styled(canonical_text(v), style)
}

/// Relies on uuid::Uuid::new_v4 (read out with Uuid::as_u128): random bits
/// masked so that the version digit is 4 and the variant bits are `10`.
#[verifier::external_body]
fn random_v4() -> (r: u128)
    ensures
        is_v4(r),
{
    uuid::Uuid::new_v4().as_u128()
}

/// Relies on the `Display` impl of uuid::Uuid, on `Uuid::from_u128(v)`:
/// lowercase hexadecimal, hyphenated 8-4-4-4-12.
#[verifier::external_body]
fn hyphenated(v: u128) -> (r: String)
    ensures
        r@ == canonical_text(v),
{
    uuid::Uuid::from_u128(v).to_string()
}

/// The entry for identifier `v` in the given style.
pub fn format_uuid(v: u128, style: FormatStyle) -> (r: String)
    ensures
        r@ == styled(canonical_text(v), style),
{
    let base = hyphenated(v);
    proof {
        reveal_strlit(",");
        reveal_strlit("\"");
        reveal_strlit("\",");
    }
    match style {
        FormatStyle::Bare => base,
        FormatStyle::BareComma => base.concat(","),
        FormatStyle::Quoted => {
            let r = String::from_str("\"").concat(base.as_str()).concat("\"");
            assert(r@ =~= styled(canonical_text(v), style));
            r
        },
        _ => {
            let r = String::from_str("\"").concat(base.as_str()).concat("\",");
            assert(r@ =~= styled(canonical_text(v), style));
            r
        },
    }
}

/// A freshly drawn random identifier, formatted in the given style.
pub fn new_entry(style: FormatStyle) -> (r: String)
    ensures
        is_entry(r@, style),
{
    let v = random_v4();
    let r = format_uuid(v, style);
    assert(is_v4(v) && r@ == styled(canonical_text(v), style));
    r
}

} // verus!
