//! Random identifiers and the text form of UUIDs.

use vstd::prelude::*;
use crate::text::{concat_str, digit_char};

verus! {

/// `uuid::Uuid::new_v4`, as its 128-bit value. The value is random, so
/// nothing is stated of it.
#[verifier::external_body]
pub fn random_uuid() -> (res: u128) {
    uuid::Uuid::new_v4().as_u128()
}

/// A random UUID in its hyphenated text form.
pub fn random_uuid_string() -> (res: String)
    ensures
        exists|v: u128| res@ == uuid_text(v),
{
    let v = random_uuid();
    uuid_to_string(v)
}

/// The lower-case hexadecimal digit of a value below sixteen.
pub open spec fn hex_char(d: nat) -> char {
    if d < 10 { digit_char(d) }
    else if d == 10 { 'a' }
    else if d == 11 { 'b' }
    else if d == 12 { 'c' }
    else if d == 13 { 'd' }
    else if d == 14 { 'e' }
    else { 'f' }
}

/// The `i`-th hexadecimal digit of a 128-bit value, most significant first.
pub open spec fn nibble(v: u128, i: int) -> nat {
    ((v >> ((124 - 4 * i) as u32)) & 0xf) as nat
}

/// The 32 hexadecimal digits of a 128-bit value, most significant first.
pub open spec fn hex_digits(v: u128) -> Seq<char> {
    Seq::new(32, |i: int| hex_char(nibble(v, i)))
}

/// The hyphenated text form of a UUID, as `uuid` writes it: its 32
/// lower-case hexadecimal digits in groups of 8, 4, 4, 4 and 12.
pub open spec fn uuid_text(v: u128) -> Seq<char> {
    let h = hex_digits(v);
    h.subrange(0, 8) + "-"@ + h.subrange(8, 12) + "-"@ + h.subrange(12, 16) + "-"@ + h.subrange(16, 20) + "-"@
        + h.subrange(20, 32)
}

/// The one-character text of a hexadecimal digit.
fn hex_text(d: u8) -> (res: &'static str)
    requires
        d < 16,
    ensures
        res@ == seq![hex_char(d as nat)],
{
    if d == 0 { proof { reveal_strlit("0"); } "0" }
    else if d == 1 { proof { reveal_strlit("1"); } "1" }
    else if d == 2 { proof { reveal_strlit("2"); } "2" }
    else if d == 3 { proof { reveal_strlit("3"); } "3" }
    else if d == 4 { proof { reveal_strlit("4"); } "4" }
    else if d == 5 { proof { reveal_strlit("5"); } "5" }
    else if d == 6 { proof { reveal_strlit("6"); } "6" }
    else if d == 7 { proof { reveal_strlit("7"); } "7" }
    else if d == 8 { proof { reveal_strlit("8"); } "8" }
    else if d == 9 { proof { reveal_strlit("9"); } "9" }
    else if d == 10 { proof { reveal_strlit("a"); } "a" }
    else if d == 11 { proof { reveal_strlit("b"); } "b" }
    else if d == 12 { proof { reveal_strlit("c"); } "c" }
    else if d == 13 { proof { reveal_strlit("d"); } "d" }
    else if d == 14 { proof { reveal_strlit("e"); } "e" }
    else { proof { reveal_strlit("f"); } "f" }
}

/// The hexadecimal digits of `value` from place `from` up to `to`.
fn hex_group(value: u128, from: usize, to: usize) -> (res: String)
    requires
        from <= to <= 32,
    ensures
        res@ == hex_digits(value).subrange(from as int, to as int),
{
    let mut s = String::new();
    let mut i: usize = from;
    while i < to
        invariant
            from <= i <= to <= 32,
            s@ == hex_digits(value).subrange(from as int, i as int),
        decreases to - i,
    {
        let sh: u32 = (124 - 4 * i) as u32;
        let d = ((value >> sh) & 0xf) as u8;
        assert((value >> sh) & 0xf < 16) by (bit_vector);
        assert(d as nat == nibble(value, i as int));
        let next = concat_str(s.as_str(), hex_text(d));
        assert(next@ =~= hex_digits(value).subrange(from as int, i + 1));
        s = next;
        i = i + 1;
    }
    s
}

/// The hyphenated text of the UUID with the given value.
pub fn uuid_to_string(value: u128) -> (res: String)
    ensures
        res@ == uuid_text(value),
{
    let a = hex_group(value, 0, 8);
    let b = hex_group(value, 8, 12);
    let c = hex_group(value, 12, 16);
    let d = hex_group(value, 16, 20);
    let e = hex_group(value, 20, 32);
    let s = concat_str(a.as_str(), "-");
    let s = concat_str(s.as_str(), b.as_str());
    let s = concat_str(s.as_str(), "-");
    let s = concat_str(s.as_str(), c.as_str());
    let s = concat_str(s.as_str(), "-");
    let s = concat_str(s.as_str(), d.as_str());
    let s = concat_str(s.as_str(), "-");
    concat_str(s.as_str(), e.as_str())
}

} // verus!
