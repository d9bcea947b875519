//! Fixed-point decimal amounts from `rust_decimal`.

use vstd::prelude::*;
use rust_decimal::Decimal;

verus! {

#[verifier::external_type_specification]
#[verifier::external_body]
pub struct ExDecimal(Decimal);

/// What `Decimal::new(num, scale)` returns: the value `num / 10^scale`.
pub uninterp spec fn decimal_of(num: i64, scale: u32) -> Decimal;

/// `rust_decimal::Decimal::new`: the decimal `num / 10^scale`. It panics
/// where `scale` exceeds 28, which `requires` leaves out.
#[verifier::external_body]
pub fn decimal_new(num: i64, scale: u32) -> (res: Decimal)
    requires
        scale <= 28,
    ensures
        res == decimal_of(num, scale),
{
    Decimal::new(num, scale)
}

/// `Clone` of `rust_decimal::Decimal`, a `Copy` type: the clone is the
/// value itself.
pub assume_specification [<Decimal as Clone>::clone](d: &Decimal) -> (res: Decimal)
    ensures
        res == *d,
;

} // verus!
