//! Commodities: the currency or unit that tags an amount.

use vstd::prelude::*;
use vstd::string::StringExecFns;
use crate::text::{chars_of, trim, trim_range};

verus! {

/// The place of a commodity in a journal.
pub type CommodityIndex = usize;

/// A currency or unit, known by its symbol alone. Symbols are compared
/// character by character: case counts, and nothing is normalised.
#[derive(Debug)]
pub struct Commodity {
    pub symbol: String,
}

impl View for Commodity {
    type V = Seq<char>;

    open spec fn view(&self) -> Seq<char> {
        self.symbol@
    }
}

impl Commodity {
    /// The commodity with the given symbol.
    pub fn new(symbol: &str) -> (res: Commodity)
        ensures
            res@ == symbol@,
    {
        Commodity { symbol: String::from_str(symbol) }
    }

    /// The commodity that a token names: none for a token that is empty or
    /// all white space, else the one whose symbol is the token as it
    /// stands.
    pub fn parse(token: &str) -> (res: Option<Commodity>)
        ensures
            res is Some <==> trim(token@).len() > 0,
            res matches Some(c) ==> c@ == token@,
    {
        let chars = chars_of(token);
        let (lo, hi) = trim_range(&chars, 0, chars.len());
        assert(chars@.subrange(0, chars.len() as int) == chars@);
        if lo == hi {
            None
        } else {
            Some(Commodity::new(token))
        }
    }
}

} // verus!
