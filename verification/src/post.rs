//! Postings: one line of a transaction.

use vstd::prelude::*;
use crate::amount::{Amount, AmountView};
use crate::journal::{AccountIndex, XactIndex};

verus! {

/// What a posting stands for.
pub struct PostView {
    pub account: AccountIndex,
    pub xact: XactIndex,
    pub amount: Option<AmountView>,
    pub cost: Option<AmountView>,
}

/// The view of an amount that may be absent.
pub open spec fn amount_view(a: Option<Amount>) -> Option<AmountView> {
    match a {
        Some(a) => Some(a@),
        None => None,
    }
}

/// A posting: it moves `amount` to or from an account, within a
/// transaction. The amount is absent while the posting waits for the
/// balance of its transaction.
#[derive(Clone, Copy, Debug)]
pub struct Post {
    pub account_index: AccountIndex,
    pub xact_index: XactIndex,
    pub amount: Option<Amount>,
    pub cost: Option<Amount>,
}

impl View for Post {
    type V = PostView;

    open spec fn view(&self) -> PostView {
        PostView {
            account: self.account_index,
            xact: self.xact_index,
            amount: amount_view(self.amount),
            cost: amount_view(self.cost),
        }
    }
}

impl Post {
    /// The posting of `amount` to the account, within the transaction.
    pub fn new(
        account_index: AccountIndex,
        xact_index: XactIndex,
        amount: Option<Amount>,
        cost: Option<Amount>,
    ) -> (res: Post)
        ensures
            res == (Post { account_index, xact_index, amount, cost }),
    {
        Post { account_index, xact_index, amount, cost }
    }
}

} // verus!
