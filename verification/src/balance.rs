//! Balancing: the postings of a transaction add up to nothing.
//!
//! The amounts of a transaction are gone through once, in the order of its
//! postings. Those that are present are added up; at most one may be
//! absent, and that posting gets what turns the total to zero.

use vstd::prelude::*;
use crate::amount::{amount_sum, inverse_of, null_amount, Amount, AmountView};
use crate::commodity::CommodityIndex;
use crate::error::LedgerError;
use crate::post::amount_view;
use crate::quantity::{
    in_range, lemma_negated_units, lemma_sum_is_exact, units, MAX_SCALE,
};

verus! {

/// What going through the amounts has found so far: the total of those
/// that are present, if any was, and the place of the absent one, if any.
pub struct Tally {
    pub total: Option<AmountView>,
    pub elided: Option<int>,
}

/// The tally after one more amount, which stands at `at`. The first
/// present amount starts the total and every later one is added to it; a
/// second absent amount is an error.
pub open spec fn tally_step(t: Tally, at: int, item: Option<AmountView>) -> Result<
    Tally,
    LedgerError,
> {
    match item {
        Some(a) => match t.total {
            None => Ok(Tally { total: Some(a), elided: t.elided }),
            Some(sum) => match amount_sum(sum, a) {
                Ok(s) => Ok(Tally { total: Some(s), elided: t.elided }),
                Err(e) => Err(e),
            },
        },
        None => if t.elided is Some {
            Err(LedgerError::DoubleNullPost)
        } else {
            Ok(Tally { total: t.total, elided: Some(at) })
        },
    }
}

/// The tally of all the amounts, taken in order; the first error ends it.
pub open spec fn tally(amounts: Seq<Option<AmountView>>) -> Result<Tally, LedgerError>
    decreases amounts.len(),
{
    if amounts.len() == 0 {
        Ok(Tally { total: None, elided: None })
    } else {
        match tally(amounts.drop_last()) {
            Ok(t) => tally_step(t, amounts.len() - 1, amounts.last()),
            Err(e) => Err(e),
        }
    }
}

/// The amount that the absent posting gets: the total with its sign
/// turned, and the null amount where nothing was added up.
pub open spec fn inferred(t: Tally) -> AmountView {
    match t.total {
        Some(a) => inverse_of(a),
        None => null_amount(),
    }
}

/// The sum of the amounts that are present, in units of `10^-28`.
pub open spec fn total_units(amounts: Seq<Option<AmountView>>) -> int
    decreases amounts.len(),
{
    if amounts.len() == 0 {
        0
    } else {
        total_units(amounts.drop_last()) + match amounts.last() {
            Some(a) => units(a.quantity),
            None => 0,
        }
    }
}

/// The views of amounts that may be absent.
pub open spec fn amount_views(amounts: Seq<Option<Amount>>) -> Seq<Option<AmountView>> {
    amounts.map_values(|a: Option<Amount>| amount_view(a))
}

/// An error in the tally of the first `n` amounts is the error of the
/// whole tally.
pub proof fn lemma_tally_error_stays(amounts: Seq<Option<AmountView>>, n: int)
    requires
        0 <= n <= amounts.len(),
        tally(amounts.take(n)) is Err,
    ensures
        tally(amounts) == tally(amounts.take(n)),
    decreases amounts.len() - n,
{
    if n < amounts.len() {
        assert(amounts.take(n + 1).drop_last() == amounts.take(n));
        lemma_tally_error_stays(amounts, n + 1);
    } else {
        assert(amounts.take(n) == amounts);
    }
}

/// The place that a tally names holds an absent amount.
pub proof fn lemma_tally_elided(amounts: Seq<Option<AmountView>>)
    requires
        tally(amounts) is Ok,
    ensures
        tally(amounts)->Ok_0.elided matches Some(k) ==> 0 <= k < amounts.len() && amounts[k] is None,
    decreases amounts.len(),
{
    if amounts.len() > 0 {
        let init = amounts.drop_last();
        lemma_tally_elided(init);
        match tally(init)->Ok_0.elided {
            Some(k) => {
                assert(init[k] == amounts[k]);
            },
            None => {},
        }
    }
}

/// What a tally that succeeds says of the amounts: the place it names
/// holds the one absent amount, and the total is the sum of all that are
/// present, in the commodity they share.
pub proof fn lemma_tally_sums(amounts: Seq<Option<AmountView>>)
    requires
        forall|i: int|
            0 <= i < amounts.len() ==> (#[trigger] amounts[i] matches Some(a) ==> a.quantity.scale
                <= MAX_SCALE),
        tally(amounts) is Ok,
    ensures
        ({
            let t = tally(amounts)->Ok_0;
            &&& match t.elided {
                Some(k) => 0 <= k < amounts.len() && amounts[k] is None && forall|i: int|
                    0 <= i < amounts.len() && i != k ==> (#[trigger] amounts[i]) is Some,
                None => forall|i: int| 0 <= i < amounts.len() ==> (#[trigger] amounts[i]) is Some,
            }
            &&& match t.total {
                Some(sum) => {
                    &&& units(sum.quantity) == total_units(amounts)
                    &&& sum.quantity.scale <= MAX_SCALE
                    &&& forall|i: int|
                        0 <= i < amounts.len() ==> (#[trigger] amounts[i] matches Some(a)
                            ==> a.commodity == sum.commodity)
                    &&& exists|i: int| 0 <= i < amounts.len() && (#[trigger] amounts[i]) is Some
                },
                None => total_units(amounts) == 0 && forall|i: int|
                    0 <= i < amounts.len() ==> (#[trigger] amounts[i]) is None,
            }
        }),
    decreases amounts.len(),
{
    if amounts.len() > 0 {
        let init = amounts.drop_last();
        assert forall|i: int| 0 <= i < init.len() implies (#[trigger] init[i] matches Some(a)
            ==> a.quantity.scale <= MAX_SCALE) by {
            assert(init[i] == amounts[i]);
        }
        lemma_tally_sums(init);
        let before = tally(init)->Ok_0;
        let t = tally(amounts)->Ok_0;
        assert forall|i: int| 0 <= i < init.len() implies init[i] == amounts[i] by {}
        match amounts.last() {
            Some(a) => {
                match before.total {
                    Some(sum) => {
                        lemma_sum_is_exact(sum.quantity, a.quantity);
                    },
                    None => {
                        assert(amounts[amounts.len() - 1] is Some);
                    },
                }
                assert(amounts[amounts.len() - 1] is Some);
            },
            None => {
                match t.total {
                    Some(sum) => {
                        let w = choose|i: int| 0 <= i < init.len() && (#[trigger] init[i]) is Some;
                        assert(amounts[w] is Some);
                    },
                    None => {},
                }
            },
        }
    }
}

/// In a transaction with one posting without an amount, whose other
/// postings share one commodity, the tally succeeds unless a sum cannot be
/// had exactly. The amount it infers for that posting is the sum of all others
/// with its sign turned, in their commodity, and with it in place the
/// amounts of the transaction add up to zero.
pub proof fn lemma_elided_posting_balances(
    amounts: Seq<Option<AmountView>>,
    k: int,
    commodity: Option<CommodityIndex>,
)
    requires
        0 <= k < amounts.len(),
        amounts[k] is None,
        forall|i: int|
            0 <= i < amounts.len() && i != k ==> (#[trigger] amounts[i] matches Some(a)
                && a.commodity == commodity && in_range(a.quantity)),
        tally(amounts) != Err::<Tally, LedgerError>(LedgerError::QuantityOverflow),
    ensures
        tally(amounts) matches Ok(t) && {
            &&& t.elided == Some(k)
            &&& units(inferred(t).quantity) == -total_units(amounts)
            &&& amounts.len() > 1 ==> inferred(t).commodity == commodity
            &&& total_units(amounts.update(k, Some(inferred(t)))) == 0
        },
{
    lemma_tally_succeeds(amounts, k, commodity, amounts.len() as int);
    assert(amounts.take(amounts.len() as int) == amounts);
    lemma_tally_sums(amounts);
    let t = tally(amounts)->Ok_0;
    let e = inferred(t);
    match t.total {
        Some(sum) => {
            lemma_negated_units(sum.quantity);
            let w = choose|i: int| 0 <= i < amounts.len() && (#[trigger] amounts[i]) is Some;
            assert(amounts[w] matches Some(a) && a.commodity == commodity);
        },
        None => {
            assert(units(null_amount().quantity) == 0) by {
                assert(0 * crate::quantity::pow10(MAX_SCALE as nat) == 0);
            }
            if amounts.len() > 1 {
                let other = if k == 0 {
                    1
                } else {
                    0int
                };
                assert(amounts[other] is Some);
            }
        },
    }
    lemma_total_units_update(amounts, k, e);
}

/// Under the conditions of `lemma_elided_posting_balances` the tally of
/// the first `n` amounts succeeds, unless a sum cannot be had exactly.
proof fn lemma_tally_succeeds(
    amounts: Seq<Option<AmountView>>,
    k: int,
    commodity: Option<CommodityIndex>,
    n: int,
)
    requires
        0 <= k < amounts.len(),
        0 <= n <= amounts.len(),
        amounts[k] is None,
        forall|i: int|
            0 <= i < amounts.len() && i != k ==> (#[trigger] amounts[i] matches Some(a)
                && a.commodity == commodity && in_range(a.quantity)),
        tally(amounts) != Err::<Tally, LedgerError>(LedgerError::QuantityOverflow),
    ensures
        tally(amounts.take(n)) matches Ok(t) && {
            &&& t.elided == if k < n {
                Some(k)
            } else {
                None::<int>
            }
            &&& t.total matches Some(sum) ==> sum.commodity == commodity
        },
    decreases n,
{
    let prefix = amounts.take(n);
    if n > 0 {
        lemma_tally_succeeds(amounts, k, commodity, n - 1);
        assert(prefix.drop_last() == amounts.take(n - 1));
        assert(prefix.last() == amounts[n - 1]);
        if tally(prefix) is Err {
            lemma_tally_error_stays(amounts, n);
        }
    }
}

/// Filling in an absent amount adds its units to the total.
pub proof fn lemma_total_units_update(amounts: Seq<Option<AmountView>>, k: int, e: AmountView)
    requires
        0 <= k < amounts.len(),
        amounts[k] is None,
    ensures
        total_units(amounts.update(k, Some(e))) == total_units(amounts) + units(e.quantity),
    decreases amounts.len(),
{
    let filled = amounts.update(k, Some(e));
    if k == amounts.len() - 1 {
        assert(filled.drop_last() == amounts.drop_last());
    } else {
        assert(filled.drop_last() == amounts.drop_last().update(k, Some(e)));
        lemma_total_units_update(amounts.drop_last(), k, e);
    }
}

/// Goes through the amounts of a transaction. Where one is absent, its
/// place and the amount that balances the others are returned; where none
/// is, nothing is. Amounts of different commodities, a sum that is not exact
/// and a second absent amount are errors, whichever comes first.
pub fn resolve_elided(amounts: &Vec<Option<Amount>>) -> (res: Result<
    Option<(usize, Amount)>,
    LedgerError,
>)
    ensures
        match tally(amount_views(amounts@)) {
            Ok(t) => res matches Ok(r) && match t.elided {
                Some(k) => r matches Some(p) && p.0 == k && p.1@ == inferred(t),
                None => r is None,
            },
            Err(e) => res matches Err(r) && r == e,
        },
{
    let ghost views = amount_views(amounts@);
    let mut total: Option<Amount> = None;
    let mut elided: Option<usize> = None;
    let mut i: usize = 0;
    assert(views.take(0) == Seq::<Option<AmountView>>::empty());
    while i < amounts.len()
        invariant
            0 <= i <= amounts.len(),
            views == amount_views(amounts@),
            tally(views.take(i as int)) == Ok::<Tally, LedgerError>(
                Tally {
                    total: amount_view(total),
                    elided: match elided {
                        Some(k) => Some(k as int),
                        None => None,
                    },
                },
            ),
        decreases amounts.len() - i,
    {
        proof {
            assert(views.take(i + 1).drop_last() == views.take(i as int));
            assert(views.take(i + 1).last() == amount_view(amounts@[i as int]));
        }
        match amounts[i] {
            Some(a) => {
                match total {
                    None => {
                        total = Some(Amount::copy_from(&a));
                    },
                    Some(sum) => {
                        let mut sum = sum;
                        match sum.add(&a) {
                            Ok(()) => {
                                total = Some(sum);
                            },
                            Err(e) => {
                                proof {
                                    lemma_tally_error_stays(views, i + 1);
                                }
                                return Err(e);
                            },
                        }
                    },
                }
            },
            None => {
                if elided.is_some() {
                    proof {
                        lemma_tally_error_stays(views, i + 1);
                    }
                    return Err(LedgerError::DoubleNullPost);
                }
                elided = Some(i);
            },
        }
        i = i + 1;
    }
    assert(views.take(i as int) == views);
    match elided {
        Some(k) => {
            let amount = match total {
                Some(sum) => sum.inverse(),
                None => Amount::null(),
            };
            Ok(Some((k, amount)))
        },
        None => Ok(None),
    }
}

} // verus!
