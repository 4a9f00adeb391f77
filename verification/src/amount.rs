//! Amounts: a quantity tagged with a commodity.

use vstd::prelude::*;
use vstd::std_specs::cmp::PartialEqSpecImpl;
use crate::commodity::CommodityIndex;
use crate::error::LedgerError;
use crate::quantity::{
    in_range, is_decimal_literal, literal_view, negated, parts_view, quotient_of, sum_of, units,
    Quantity, QuantityView,
};

verus! {

/// What an amount stands for.
pub struct AmountView {
    pub quantity: QuantityView,
    pub commodity: Option<CommodityIndex>,
}

/// The amount without quantity or commodity.
pub open spec fn null_amount() -> AmountView {
    AmountView { quantity: parts_view(0, 0), commodity: None }
}

/// `a` with the sign of its quantity turned.
pub open spec fn inverse_of(a: AmountView) -> AmountView {
    AmountView { quantity: negated(a.quantity), commodity: a.commodity }
}

/// What adding `b` to `a` gives: their commodities must be the same, both
/// absent included, and the sum of their quantities must be exact.
pub open spec fn amount_sum(a: AmountView, b: AmountView) -> Result<AmountView, LedgerError> {
    if a.commodity != b.commodity {
        Err(LedgerError::CommodityMismatch)
    } else {
        match sum_of(a.quantity, b.quantity) {
            Some(q) => Ok(AmountView { quantity: q, commodity: a.commodity }),
            None => Err(LedgerError::QuantityOverflow),
        }
    }
}

/// The commodity of a quotient: that of the divisor where the dividend
/// has none, else that of the dividend.
pub open spec fn quotient_commodity(a: AmountView, b: AmountView) -> Option<CommodityIndex> {
    if a.commodity is None {
        b.commodity
    } else {
        a.commodity
    }
}

/// A quantity and the commodity it is counted in, if any.
#[derive(Clone, Copy, Debug)]
pub struct Amount {
    pub quantity: Quantity,
    pub commodity_index: Option<CommodityIndex>,
}

impl View for Amount {
    type V = AmountView;

    open spec fn view(&self) -> AmountView {
        AmountView { quantity: self.quantity@, commodity: self.commodity_index }
    }
}

impl Amount {
    /// The amount of `quantity` in the given commodity.
    pub fn new(quantity: Quantity, commodity_index: Option<CommodityIndex>) -> (res: Amount)
        ensures
            res.quantity == quantity,
            res.commodity_index == commodity_index,
    {
        Amount { quantity, commodity_index }
    }

    /// The amount with its quantity made negative: a quantity above zero
    /// has its sign turned, any other stays.
    pub fn abs(&self) -> (res: Amount)
        ensures
            res@.commodity == self@.commodity,
            res@.quantity == if self@.quantity.mantissa >= 0 {
                negated(self@.quantity)
            } else {
                self@.quantity
            },
    {
        if self.quantity.is_sign_positive() {
            Amount { quantity: self.quantity.negate(), commodity_index: self.commodity_index }
        } else {
            *self
        }
    }

    /// Reads the quantity of an amount from a decimal literal and tags it
    /// with the given commodity. The quantity keeps every digit of the
    /// literal. Nothing is returned for a text that is no literal, the
    /// empty one included, nor for a literal that is out of range.
    pub fn parse(amount: &str, commodity_index: Option<CommodityIndex>) -> (res: Option<Amount>)
        ensures
            res is Some <==> is_decimal_literal(amount@) && in_range(literal_view(amount@)),
            res matches Some(a) ==> a@ == (AmountView {
                quantity: literal_view(amount@),
                commodity: commodity_index,
            }),
    {
        match Quantity::parse(amount) {
            Some(quantity) => Some(Amount { quantity, commodity_index }),
            None => None,
        }
    }

    /// A copy of `other`.
    pub fn copy_from(other: &Amount) -> (res: Amount)
        ensures
            res == *other,
    {
        Amount { quantity: other.quantity, commodity_index: other.commodity_index }
    }

    /// The null amount: zero, in no commodity.
    pub fn null() -> (res: Amount)
        ensures
            res@ == null_amount(),
    {
        Amount { quantity: Quantity::zero(), commodity_index: None }
    }

    /// Adds `other` to this amount. The two must be of the same commodity,
    /// or both of none; adding zero changes nothing. On an error the
    /// amount is left as it was.
    pub fn add(&mut self, other: &Amount) -> (res: Result<(), LedgerError>)
        ensures
            match amount_sum(old(self)@, other@) {
                Ok(sum) => res is Ok && final(self)@ == sum,
                Err(e) => res == Err::<(), LedgerError>(e) && *final(self) == *old(self),
            },
    {
        if !same_commodity(self.commodity_index, other.commodity_index) {
            return Err(LedgerError::CommodityMismatch);
        }
        match self.quantity.checked_add(&other.quantity) {
            Some(sum) => {
                self.quantity = sum;
                Ok(())
            },
            None => Err(LedgerError::QuantityOverflow),
        }
    }

    /// The amount with the sign of its quantity turned, in the same
    /// commodity.
    pub fn inverse(&self) -> (res: Amount)
        ensures
            res@ == inverse_of(self@),
    {
        Amount { quantity: self.quantity.negate(), commodity_index: self.commodity_index }
    }

    /// Whether this is the null amount: a quantity of zero and no
    /// commodity.
    pub fn is_null(&self) -> (r: bool)
        ensures
            r == (self@.quantity.mantissa == 0 && self@.commodity is None),
    {
        if self.quantity.is_zero() {
            self.commodity_index.is_none()
        } else {
            false
        }
    }

    /// Whether the quantity is zero.
    pub fn is_zero(&self) -> (r: bool)
        ensures
            r == (self@.quantity.mantissa == 0),
    {
        self.quantity.is_zero()
    }

    /// The amount that dividing `self` by `rhs` yields, given the quotient
    /// of their quantities.
    pub fn with_quotient(&self, rhs: &Amount, quotient: Quantity) -> (res: Amount)
        ensures
            res.quantity == quotient,
            res@.commodity == quotient_commodity(self@, rhs@),
    {
        let commodity_index = if self.commodity_index.is_none() {
            rhs.commodity_index
        } else {
            self.commodity_index
        };
        Amount { quantity: quotient, commodity_index }
    }

    /// Divides by `rhs`; both amounts are other than zero. The quotient is
    /// in the commodity of `self`, or in that of `rhs` where `self` has
    /// none. Nothing is returned where the quotient of the quantities is
    /// out of range.
    pub fn divide(&self, rhs: &Amount) -> (res: Option<Amount>)
        requires
            self@.quantity.mantissa != 0,
            rhs@.quantity.mantissa != 0,
        ensures
            res is Some <==> quotient_of(self@.quantity, rhs@.quantity) is Some,
            res matches Some(a) ==> Some(a@.quantity) == quotient_of(self@.quantity, rhs@.quantity)
                && a@.commodity == quotient_commodity(self@, rhs@),
    {
        match self.quantity.checked_div(&rhs.quantity) {
            Some(quotient) => Some(self.with_quotient(rhs, quotient)),
            None => None,
        }
    }
}

/// Tests two commodity tags for equality.
pub fn same_commodity(a: Option<CommodityIndex>, b: Option<CommodityIndex>) -> (r: bool)
    ensures
        r == (a == b),
{
    match (a, b) {
        (Some(x), Some(y)) => x == y,
        (None, None) => true,
        _ => false,
    }
}

impl PartialEq for Amount {
    fn eq(&self, other: &Amount) -> (r: bool) {
        self.quantity == other.quantity && same_commodity(
            self.commodity_index,
            other.commodity_index,
        )
    }
}

impl PartialEqSpecImpl for Amount {
    open spec fn obeys_eq_spec() -> bool {
        true
    }

    open spec fn eq_spec(&self, other: &Amount) -> bool {
        units(self@.quantity) == units(other@.quantity) && self@.commodity == other@.commodity
    }
}

} // verus!
