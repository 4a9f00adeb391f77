//! The journal: four arenas that only grow, and the indices into them.

use vstd::prelude::*;
use crate::account::{Account, AccountView};
use crate::amount::AmountView;
use crate::commodity::{Commodity, CommodityIndex};
use crate::error::LedgerError;
use crate::post::{Post, PostView};
use crate::xact::{Xact, XactView};

verus! {

/// The place of an account in a journal.
pub type AccountIndex = usize;

/// The place of a posting in a journal.
pub type PostIndex = usize;

/// The place of a transaction in a journal.
pub type XactIndex = usize;

/// What a journal stands for: the contents of its four arenas.
pub struct JournalView {
    pub accounts: Seq<AccountView>,
    pub commodities: Seq<Seq<char>>,
    pub xacts: Seq<XactView>,
    pub posts: Seq<PostView>,
}

/// The journal. Accounts, commodities, transactions and postings each
/// live in an arena of their own, and refer to one another by index. An
/// index, once handed out, stays good: nothing is ever removed or moved.
#[derive(Debug)]
pub struct Journal {
    pub accounts: Vec<Account>,
    pub commodities: Vec<Commodity>,
    pub xacts: Vec<Xact>,
    pub posts: Vec<Post>,
}

impl View for Journal {
    type V = JournalView;

    open spec fn view(&self) -> JournalView {
        JournalView {
            accounts: self.accounts@.map_values(|a: Account| a@),
            commodities: self.commodities@.map_values(|c: Commodity| c@),
            xacts: self.xacts@.map_values(|x: Xact| x@),
            posts: self.posts@.map_values(|p: Post| p@),
        }
    }
}

/// The first place of `name` in `names`; their number where it is not
/// among them.
pub open spec fn position_of(names: Seq<Seq<char>>, name: Seq<char>) -> int
    decreases names.len(),
{
    if names.len() == 0 {
        0
    } else if position_of(names.drop_last(), name) < names.len() - 1 {
        position_of(names.drop_last(), name)
    } else if names.last() == name {
        names.len() - 1
    } else {
        names.len() as int
    }
}

/// Whether no name occurs twice.
pub open spec fn distinct(names: Seq<Seq<char>>) -> bool {
    forall|i: int, j: int| 0 <= i < j < names.len() ==> names[i] != names[j]
}

/// The names of the accounts.
pub open spec fn account_names(accounts: Seq<AccountView>) -> Seq<Seq<char>> {
    accounts.map_values(|a: AccountView| a.name)
}

/// Whether an amount, if present, is tagged with a commodity of the
/// journal, if with any.
pub open spec fn amount_in(j: JournalView, a: Option<AmountView>) -> bool {
    a matches Some(a) ==> (a.commodity matches Some(c) ==> c < j.commodities.len())
}

/// Whether the journal is consistent: every index in it points into its
/// arena, what a transaction or an account lists is a posting of its
/// own, and no account name or commodity symbol occurs twice.
pub open spec fn journal_wf(j: JournalView) -> bool {
    &&& forall|p: int|
        0 <= p < j.posts.len() ==> {
            &&& (#[trigger] j.posts[p]).account < j.accounts.len()
            &&& j.posts[p].xact < j.xacts.len()
            &&& amount_in(j, j.posts[p].amount)
            &&& amount_in(j, j.posts[p].cost)
        }
    &&& forall|x: int, i: int|
        0 <= x < j.xacts.len() && 0 <= i < j.xacts[x].posts.len() ==> {
            &&& (#[trigger] j.xacts[x].posts[i]) < j.posts.len()
            &&& j.posts[j.xacts[x].posts[i] as int].xact == x
        }
    &&& forall|a: int, i: int|
        0 <= a < j.accounts.len() && 0 <= i < j.accounts[a].posts.len() ==> {
            &&& (#[trigger] j.accounts[a].posts[i]) < j.posts.len()
            &&& j.posts[j.accounts[a].posts[i] as int].account == a
        }
    &&& distinct(account_names(j.accounts))
    &&& distinct(j.commodities)
}

/// `position_of` finds the first occurrence, and nothing before it is the
/// name.
pub proof fn lemma_position_is_first(names: Seq<Seq<char>>, name: Seq<char>)
    ensures
        0 <= position_of(names, name) <= names.len(),
        position_of(names, name) < names.len() ==> names[position_of(names, name)] == name,
        forall|k: int| 0 <= k < position_of(names, name) ==> names[k] != name,
    decreases names.len(),
{
    if names.len() > 0 {
        let init = names.drop_last();
        lemma_position_is_first(init, name);
        assert forall|k: int| 0 <= k < position_of(names, name) implies names[k] != name by {
            if k < init.len() {
                assert(init[k] == names[k]);
            }
        }
    }
}

/// A name that stands at `at`, and nowhere before, has `at` as its
/// position.
pub proof fn lemma_position_found(names: Seq<Seq<char>>, name: Seq<char>, at: int)
    requires
        0 <= at < names.len(),
        names[at] == name,
        forall|k: int| 0 <= k < at ==> names[k] != name,
    ensures
        position_of(names, name) == at,
{
    lemma_position_is_first(names, name);
}

/// A name that stands nowhere has the number of names as its position.
pub proof fn lemma_position_missing(names: Seq<Seq<char>>, name: Seq<char>)
    requires
        forall|k: int| 0 <= k < names.len() ==> names[k] != name,
    ensures
        position_of(names, name) == names.len(),
{
    lemma_position_is_first(names, name);
}

/// The journal after the account `account` was looked up by its name and,
/// where no account had that name, added.
pub open spec fn with_account(j: JournalView, account: AccountView) -> JournalView {
    if position_of(account_names(j.accounts), account.name) < j.accounts.len() {
        j
    } else {
        JournalView { accounts: j.accounts.push(account), ..j }
    }
}

/// The journal after the commodity of the given symbol was looked up and,
/// where no commodity had that symbol, added.
pub open spec fn with_commodity(j: JournalView, symbol: Seq<char>) -> JournalView {
    if position_of(j.commodities, symbol) < j.commodities.len() {
        j
    } else {
        JournalView { commodities: j.commodities.push(symbol), ..j }
    }
}

/// Interning: looking up one symbol and then another gives the same index
/// exactly when the two symbols are the same, and the first index still
/// names the first symbol afterwards.
pub proof fn lemma_interning(j: JournalView, first: Seq<char>, second: Seq<char>)
    requires
        distinct(j.commodities),
    ensures
        ({
            let after_first = with_commodity(j, first);
            let after_second = with_commodity(after_first, second);
            let i = position_of(j.commodities, first);
            let k = position_of(after_first.commodities, second);
            &&& (i == k <==> first == second)
            &&& 0 <= i < after_second.commodities.len()
            &&& after_second.commodities[i] == first
            &&& 0 <= k < after_second.commodities.len()
            &&& after_second.commodities[k] == second
            &&& distinct(after_second.commodities)
        }),
{
    let after_first = with_commodity(j, first);
    lemma_position_is_first(j.commodities, first);
    lemma_position_is_first(after_first.commodities, second);
    lemma_with_commodity_distinct(j, first);
    lemma_with_commodity_distinct(after_first, second);
    let i = position_of(j.commodities, first);
    let k = position_of(after_first.commodities, second);
    assert(after_first.commodities[i] == first);
    if first == second {
        assert forall|m: int| 0 <= m < i implies after_first.commodities[m] != second by {
            assert(after_first.commodities[m] == j.commodities[m]);
        }
        lemma_position_found(after_first.commodities, second, i);
    }
}

/// Looking up a symbol keeps the symbols distinct.
pub proof fn lemma_with_commodity_distinct(j: JournalView, symbol: Seq<char>)
    requires
        distinct(j.commodities),
    ensures
        distinct(with_commodity(j, symbol).commodities),
{
    lemma_position_is_first(j.commodities, symbol);
}

impl Journal {
    /// Whether the journal is consistent.
    pub open spec fn wf(&self) -> bool {
        journal_wf(self@)
    }

    /// The empty journal.
    pub fn new() -> (res: Journal)
        ensures
            res@.accounts.len() == 0,
            res@.commodities.len() == 0,
            res@.xacts.len() == 0,
            res@.posts.len() == 0,
            res.wf(),
    {
        Journal {
            accounts: Vec::new(),
            commodities: Vec::new(),
            xacts: Vec::new(),
            posts: Vec::new(),
        }
    }

    /// The index of the account named `name`, if there is one.
    pub fn find_account(&self, name: &str) -> (res: Option<AccountIndex>)
        ensures
            match res {
                Some(i) => i == position_of(account_names(self@.accounts), name@) && i
                    < self@.accounts.len() && self@.accounts[i as int].name == name@,
                None => position_of(account_names(self@.accounts), name@) == self@.accounts.len(),
            },
    {
        let ghost names = account_names(self@.accounts);
        let wanted = name.to_owned();
        let mut i: usize = 0;
        while i < self.accounts.len()
            invariant
                0 <= i <= self.accounts.len(),
                names == account_names(self@.accounts),
                wanted@ == name@,
                forall|k: int| 0 <= k < i ==> names[k] != name@,
            decreases self.accounts.len() - i,
        {
            if self.accounts[i].name == wanted {
                proof {
                    lemma_position_found(names, name@, i as int);
                }
                return Some(i);
            }
            i = i + 1;
        }
        proof {
            lemma_position_missing(names, name@);
        }
        None
    }

    /// The index of the commodity with the given symbol, if there is one.
    pub fn find_commodity(&self, symbol: &str) -> (res: Option<CommodityIndex>)
        ensures
            match res {
                Some(i) => i == position_of(self@.commodities, symbol@) && i
                    < self@.commodities.len() && self@.commodities[i as int] == symbol@,
                None => position_of(self@.commodities, symbol@) == self@.commodities.len(),
            },
    {
        let ghost names = self@.commodities;
        let wanted = symbol.to_owned();
        let mut i: usize = 0;
        while i < self.commodities.len()
            invariant
                0 <= i <= self.commodities.len(),
                names == self@.commodities,
                wanted@ == symbol@,
                forall|k: int| 0 <= k < i ==> names[k] != symbol@,
            decreases self.commodities.len() - i,
        {
            if self.commodities[i].symbol == wanted {
                proof {
                    lemma_position_found(names, symbol@, i as int);
                }
                return Some(i);
            }
            i = i + 1;
        }
        proof {
            lemma_position_missing(names, symbol@);
        }
        None
    }

    /// Interns an account by its name: the index of the account that has
    /// the name already, else that of `account`, which is added.
    pub fn add_account(&mut self, account: Account) -> (res: AccountIndex)
        ensures
            res == position_of(account_names(old(self)@.accounts), account@.name),
            final(self)@ == with_account(old(self)@, account@),
            res < final(self)@.accounts.len(),
            final(self)@.accounts[res as int].name == account@.name,
            old(self).wf() && account@.posts.len() == 0 ==> final(self).wf(),
    {
        match self.find_account(account.name.as_str()) {
            Some(i) => i,
            None => {
                let ghost before = self@;
                let at = self.accounts.len();
                self.accounts.push(account);
                proof {
                    assert(self@.accounts =~= before.accounts.push(account@));
                    assert(self@.commodities =~= before.commodities);
                    assert(self@.xacts =~= before.xacts);
                    assert(self@.posts =~= before.posts);
                    if journal_wf(before) && account@.posts.len() == 0 {
                        lemma_position_is_first(account_names(before.accounts), account@.name);
                        assert forall|i: int, k: int|
                            0 <= i < k < account_names(self@.accounts).len() implies account_names(
                            self@.accounts,
                        )[i] != account_names(self@.accounts)[k] by {
                            assert(account_names(self@.accounts)[i] == account_names(
                                before.accounts,
                            )[i]);
                            if k < at {
                                assert(account_names(self@.accounts)[k] == account_names(
                                    before.accounts,
                                )[k]);
                            }
                        }
                    }
                }
                at
            },
        }
    }

    /// Interns a commodity by its symbol: the index of the commodity that
    /// has the symbol already, else that of `commodity`, which is added.
    pub fn add_commodity(&mut self, commodity: Commodity) -> (res: CommodityIndex)
        ensures
            res == position_of(old(self)@.commodities, commodity@),
            final(self)@ == with_commodity(old(self)@, commodity@),
            res < final(self)@.commodities.len(),
            final(self)@.commodities[res as int] == commodity@,
            old(self).wf() ==> final(self).wf(),
    {
        match self.find_commodity(commodity.symbol.as_str()) {
            Some(i) => i,
            None => {
                let ghost before = self@;
                let at = self.commodities.len();
                self.commodities.push(commodity);
                proof {
                    assert(self@.commodities =~= before.commodities.push(commodity@));
                    assert(self@.accounts =~= before.accounts);
                    assert(self@.xacts =~= before.xacts);
                    assert(self@.posts =~= before.posts);
                    if journal_wf(before) {
                        lemma_with_commodity_distinct(before, commodity@);
                    }
                }
                at
            },
        }
    }

    /// Adds a transaction and returns its index.
    pub fn add_xact(&mut self, xact: Xact) -> (res: XactIndex)
        ensures
            res == old(self)@.xacts.len(),
            final(self)@ == (JournalView { xacts: old(self)@.xacts.push(xact@), ..old(self)@ }),
            old(self).wf() && xact@.posts.len() == 0 ==> final(self).wf(),
    {
        let ghost before = self@;
        let at = self.xacts.len();
        self.xacts.push(xact);
        proof {
            assert(self@.xacts =~= before.xacts.push(xact@));
            assert(self@.accounts =~= before.accounts);
            assert(self@.commodities =~= before.commodities);
            assert(self@.posts =~= before.posts);
        }
        at
    }

    /// Adds a posting and returns its index. Neither its transaction nor
    /// its account is told of it.
    pub fn add_post(&mut self, post: Post) -> (res: PostIndex)
        ensures
            res == old(self)@.posts.len(),
            final(self)@ == (JournalView { posts: old(self)@.posts.push(post@), ..old(self)@ }),
            old(self).wf() && post@.account < old(self)@.accounts.len() && post@.xact < old(
                self,
            )@.xacts.len() && amount_in(old(self)@, post@.amount) && amount_in(
                old(self)@,
                post@.cost,
            ) ==> final(self).wf(),
    {
        let ghost before = self@;
        let at = self.posts.len();
        self.posts.push(post);
        proof {
            assert(self@.posts =~= before.posts.push(post@));
            assert(self@.accounts =~= before.accounts);
            assert(self@.commodities =~= before.commodities);
            assert(self@.xacts =~= before.xacts);
        }
        at
    }

    /// The account at `index`.
    pub fn get_account(&self, index: AccountIndex) -> (res: Result<&Account, LedgerError>)
        ensures
            match res {
                Ok(a) => index < self.accounts@.len() && *a == self.accounts@[index as int],
                Err(e) => index >= self.accounts@.len() && e == LedgerError::IndexNotFound,
            },
    {
        if index < self.accounts.len() {
            Ok(&self.accounts[index])
        } else {
            Err(LedgerError::IndexNotFound)
        }
    }

    /// The commodity at `index`.
    pub fn get_commodity(&self, index: CommodityIndex) -> (res: Result<&Commodity, LedgerError>)
        ensures
            match res {
                Ok(c) => index < self.commodities@.len() && *c == self.commodities@[index as int],
                Err(e) => index >= self.commodities@.len() && e == LedgerError::IndexNotFound,
            },
    {
        if index < self.commodities.len() {
            Ok(&self.commodities[index])
        } else {
            Err(LedgerError::IndexNotFound)
        }
    }

    /// The postings at `indices`, in that order.
    pub fn get_posts(&self, indices: &[PostIndex]) -> (res: Result<Vec<&Post>, LedgerError>)
        ensures
            match res {
                Ok(posts) => {
                    &&& posts@.len() == indices@.len()
                    &&& forall|i: int|
                        0 <= i < indices@.len() ==> (#[trigger] indices@[i]) < self.posts@.len()
                            && *posts@[i] == self.posts@[indices@[i] as int]
                },
                Err(e) => e == LedgerError::IndexNotFound && exists|i: int|
                    0 <= i < indices@.len() && #[trigger] indices@[i] >= self.posts@.len(),
            },
    {
        let mut posts: Vec<&Post> = Vec::new();
        let mut i: usize = 0;
        while i < indices.len()
            invariant
                0 <= i <= indices@.len(),
                posts@.len() == i,
                forall|k: int|
                    0 <= k < i ==> (#[trigger] indices@[k]) < self.posts@.len() && *posts@[k]
                        == self.posts@[indices@[k] as int],
            decreases indices@.len() - i,
        {
            let at = indices[i];
            if at >= self.posts.len() {
                return Err(LedgerError::IndexNotFound);
            }
            posts.push(&self.posts[at]);
            i = i + 1;
        }
        Ok(posts)
    }
}

} // verus!
