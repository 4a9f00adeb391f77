//! Transactions, and the balancing that closes them.

use vstd::prelude::*;
use vstd::string::StringExecFns;
use crate::amount::{Amount, AmountView};
use crate::balance::{
    amount_views, inferred, lemma_tally_elided, lemma_tally_sums, lemma_total_units_update,
    resolve_elided, tally, total_units, Tally,
};
use crate::quantity::{lemma_negated_units, pow10, units, MAX_SCALE};
use crate::date::{date_of, Date};
use crate::error::LedgerError;
use crate::journal::{amount_in, journal_wf, Journal, JournalView, PostIndex, XactIndex};
use crate::post::{amount_view, Post, PostView};

verus! {

/// What a transaction stands for.
pub struct XactView {
    pub date: Option<Date>,
    pub aux_date: Option<Date>,
    pub payee: Seq<char>,
    pub posts: Seq<PostIndex>,
    pub note: Option<Seq<char>>,
}

/// The view of a note that may be absent.
pub open spec fn note_view(note: Option<String>) -> Option<Seq<char>> {
    match note {
        Some(s) => Some(s@),
        None => None,
    }
}

/// The payee of a transaction whose header names none.
pub open spec fn unknown_payee() -> Seq<char> {
    "Unknown Payee"@
}

/// The transaction made of the given parts: an empty payee is replaced by
/// the unknown payee, an empty note is no note, and there are no postings
/// yet.
pub open spec fn assembled(
    date: Option<Date>,
    aux_date: Option<Date>,
    payee: Seq<char>,
    note: Seq<char>,
) -> XactView {
    XactView {
        date,
        aux_date,
        payee: if payee.len() == 0 {
            unknown_payee()
        } else {
            payee
        },
        posts: Seq::empty(),
        note: if note.len() == 0 {
            None
        } else {
            Some(note)
        },
    }
}

/// The date that a token of a header gives: none for the empty token, the
/// date it writes for any other, and an error where it writes none.
pub open spec fn token_date(token: Seq<char>) -> Result<Option<Date>, LedgerError> {
    if token.len() == 0 {
        Ok(None)
    } else {
        match date_of(token) {
            Some(d) => Ok(Some(d)),
            None => Err(LedgerError::MalformedLine),
        }
    }
}

/// The transaction that the four tokens of a header give.
pub open spec fn created(
    date: Seq<char>,
    aux_date: Seq<char>,
    payee: Seq<char>,
    note: Seq<char>,
) -> Result<XactView, LedgerError> {
    match (token_date(date), token_date(aux_date)) {
        (Ok(d), Ok(a)) => Ok(assembled(d, a, payee, note)),
        _ => Err(LedgerError::MalformedLine),
    }
}

/// A transaction: a header and the postings under it, in the order in
/// which they were read.
#[derive(Debug)]
pub struct Xact {
    pub date: Option<Date>,
    pub aux_date: Option<Date>,
    pub payee: String,
    pub posts: Vec<PostIndex>,
    pub note: Option<String>,
}

impl View for Xact {
    type V = XactView;

    open spec fn view(&self) -> XactView {
        XactView {
            date: self.date,
            aux_date: self.aux_date,
            payee: self.payee@,
            posts: self.posts@,
            note: note_view(self.note),
        }
    }
}

/// Reads the date that a token of a header gives.
fn read_token_date(token: &str) -> (res: Result<Option<Date>, LedgerError>)
    ensures
        res == token_date(token@),
{
    if token.is_empty() {
        Ok(None)
    } else {
        match Date::parse(token) {
            Some(d) => Ok(Some(d)),
            None => Err(LedgerError::MalformedLine),
        }
    }
}

impl Xact {
    /// The transaction with the given date, payee and note, without
    /// auxiliary date or postings.
    pub fn new(date: Option<Date>, payee: &str, note: Option<String>) -> (res: Xact)
        ensures
            res@ == (XactView {
                date,
                aux_date: None,
                payee: payee@,
                posts: Seq::empty(),
                note: note_view(note),
            }),
    {
        Xact { date, aux_date: None, payee: String::from_str(payee), posts: Vec::new(), note }
    }

    /// The transaction made of dates already read and the payee and note
    /// of a header.
    pub fn assemble(date: Option<Date>, aux_date: Option<Date>, payee: &str, note: &str) -> (res:
        Xact)
        ensures
            res@ == assembled(date, aux_date, payee@, note@),
    {
        let payee = if payee.is_empty() {
            String::from_str("Unknown Payee")
        } else {
            String::from_str(payee)
        };
        let note = if note.is_empty() {
            None
        } else {
            Some(String::from_str(note))
        };
        Xact { date, aux_date, payee, posts: Vec::new(), note }
    }

    /// The transaction that the four tokens of a header give. An empty
    /// date is no date; a date that cannot be read is an error.
    pub fn create(date: &str, aux_date: &str, payee: &str, note: &str) -> (res: Result<
        Xact,
        LedgerError,
    >)
        ensures
            match created(date@, aux_date@, payee@, note@) {
                Ok(x) => res matches Ok(r) && r@ == x,
                Err(e) => res matches Err(r) && r == e,
            },
    {
        let date = match read_token_date(date) {
            Ok(d) => d,
            Err(e) => {
                return Err(LedgerError::MalformedLine);
            },
        };
        let aux_date = match read_token_date(aux_date) {
            Ok(d) => d,
            Err(e) => {
                return Err(LedgerError::MalformedLine);
            },
        };
        Ok(Xact::assemble(date, aux_date, payee, note))
    }
}

/// Whether every posting that the transaction at `x` lists is in the
/// journal.
pub open spec fn posts_exist(j: JournalView, x: int) -> bool {
    forall|i: int|
        0 <= i < j.xacts[x].posts.len() ==> (#[trigger] j.xacts[x].posts[i]) < j.posts.len()
}

/// The amounts of the postings of the transaction at `x`, in their order.
pub open spec fn xact_amounts(j: JournalView, x: int) -> Seq<Option<AmountView>> {
    Seq::new(j.xacts[x].posts.len(), |i: int| j.posts[j.xacts[x].posts[i] as int].amount)
}

/// The journal with the amount of the posting at `p` set to `amount`.
pub open spec fn with_amount(j: JournalView, p: int, amount: AmountView) -> JournalView {
    JournalView {
        posts: j.posts.update(p, PostView { amount: Some(amount), ..j.posts[p] }),
        ..j
    }
}

/// The journal after the transaction at `x` was balanced: its posting
/// without an amount, if it has one, has got the amount that balances the
/// others. An index that points nowhere is an error, and so is whatever
/// stops the tally.
pub open spec fn finalized(j: JournalView, x: XactIndex) -> Result<JournalView, LedgerError> {
    if x >= j.xacts.len() || !posts_exist(j, x as int) {
        Err(LedgerError::IndexNotFound)
    } else {
        match tally(xact_amounts(j, x as int)) {
            Ok(t) => match t.elided {
                Some(k) => Ok(with_amount(j, j.xacts[x as int].posts[k] as int, inferred(t))),
                None => Ok(j),
            },
            Err(e) => Err(e),
        }
    }
}

/// An amount as `finalize` reads it: the null amount counts as absent.
pub open spec fn stated(a: Option<AmountView>) -> Option<AmountView> {
    match a {
        Some(a) => if a.quantity.mantissa == 0 && a.commodity is None {
            None
        } else {
            Some(a)
        },
        None => None,
    }
}

/// The amounts of the given postings, as `finalize` reads them.
pub open spec fn stated_amounts(posts: Seq<PostView>) -> Seq<Option<AmountView>> {
    Seq::new(posts.len(), |i: int| stated(posts[i].amount))
}

/// The postings as `finalize` stores them: each belongs to the
/// transaction at `x`, and the one without an amount, if there is one,
/// has got the amount that balances the others.
pub open spec fn settled_posts(posts: Seq<PostView>, x: XactIndex, t: Tally) -> Seq<PostView> {
    Seq::new(
        posts.len(),
        |i: int|
            PostView {
                xact: x,
                amount: if t.elided == Some(i) {
                    Some(inferred(t))
                } else {
                    posts[i].amount
                },
                ..posts[i]
            },
    )
}

/// Whether the given postings can stand in the journal: each names an
/// account of the journal, and commodities of the journal, if any.
pub open spec fn posts_fit(j: JournalView, posts: Seq<PostView>) -> bool {
    forall|i: int|
        0 <= i < posts.len() ==> {
            &&& (#[trigger] posts[i]).account < j.accounts.len()
            &&& amount_in(j, posts[i].amount)
            &&& amount_in(j, posts[i].cost)
        }
}

/// The journal after `finalize`: the transaction stands at the end of
/// the transactions and lists the postings, which stand at the end of
/// the postings in their order.
pub open spec fn finalized_with(j: JournalView, xact: XactView, posts: Seq<PostView>) -> Result<
    JournalView,
    LedgerError,
> {
    match tally(stated_amounts(posts)) {
        Ok(t) => Ok(
            JournalView {
                xacts: j.xacts.push(
                    XactView {
                        posts: xact.posts + Seq::new(
                            posts.len(),
                            |i: int| (j.posts.len() + i) as usize,
                        ),
                        ..xact
                    },
                ),
                posts: j.posts + settled_posts(posts, j.xacts.len() as usize, t),
                ..j
            },
        ),
        Err(e) => Err(e),
    }
}

/// Balances the given postings, adds the transaction and then the
/// postings to the journal, and lists the postings in the transaction. A
/// posting with the null amount, or with none, is the one to be
/// balanced. On an error the journal is left as it was.
pub fn finalize(xact: Xact, posts: Vec<Post>, journal: &mut Journal) -> (res: Result<
    (),
    LedgerError,
>)
    ensures
        match finalized_with(old(journal)@, xact@, posts@.map_values(|p: Post| p@)) {
            Ok(j) => res is Ok && final(journal)@ == j,
            Err(e) => res == Err::<(), LedgerError>(e) && final(journal)@ == old(journal)@,
        },
        old(journal).wf() && xact@.posts.len() == 0 && posts_fit(
            old(journal)@,
            posts@.map_values(|p: Post| p@),
        ) ==> final(journal).wf(),
{
    let ghost views = posts@.map_values(|p: Post| p@);
    let ghost before = journal@;
    let mut amounts: Vec<Option<Amount>> = Vec::new();
    let mut i: usize = 0;
    while i < posts.len()
        invariant
            0 <= i <= posts.len(),
            views == posts@.map_values(|p: Post| p@),
            amounts@.len() == i,
            forall|k: int|
                0 <= k < i ==> amount_view(#[trigger] amounts@[k]) == stated(views[k].amount),
        decreases posts.len() - i,
    {
        let stated = match posts[i].amount {
            Some(a) => if a.is_null() {
                None
            } else {
                Some(a)
            },
            None => None,
        };
        amounts.push(stated);
        i = i + 1;
    }
    assert(amount_views(amounts@) =~= stated_amounts(views));
    let found = match resolve_elided(&amounts) {
        Ok(found) => found,
        Err(e) => {
            return Err(e);
        },
    };
    let ghost t = tally(stated_amounts(views))->Ok_0;
    let xact_index = journal.xacts.len();
    let first = journal.posts.len();
    let ghost given = xact@;
    let mut xact = xact;
    let ghost listed = xact@.posts;
    let mut i: usize = 0;
    while i < posts.len()
        invariant
            0 <= i <= posts.len(),
            journal.posts.len() == first + i,
            views == posts@.map_values(|p: Post| p@),
            journal@.accounts == before.accounts,
            journal@.commodities == before.commodities,
            journal@.xacts == before.xacts,
            first == before.posts.len(),
            xact_index == before.xacts.len(),
            journal@.posts == before.posts + settled_posts(views, xact_index, t).take(i as int),
            listed == given.posts,
            xact@.date == given.date,
            xact@.aux_date == given.aux_date,
            xact@.payee == given.payee,
            xact@.note == given.note,
            xact@.posts == listed + Seq::new(i as nat, |k: int| (first + k) as usize),
            match t.elided {
                Some(k) => found matches Some(p) && p.0 == k && p.1@ == inferred(t),
                None => found is None,
            },
        decreases posts.len() - i,
    {
        let mut post = posts[i];
        post.xact_index = xact_index;
        match found {
            Some(p) => {
                if p.0 == i {
                    post.amount = Some(p.1);
                }
            },
            None => {},
        }
        let at = journal.add_post(post);
        xact.posts.push(at);
        proof {
            let settled = settled_posts(views, xact_index, t);
            assert(post@ == settled[i as int]);
            assert(settled.take(i + 1) =~= settled.take(i as int).push(settled[i as int]));
            assert(journal@.posts =~= before.posts + settled.take(i + 1));
            assert(xact@.posts =~= listed + Seq::new((i + 1) as nat, |k: int| (first + k) as usize));
        }
        i = i + 1;
    }
    proof {
        let settled = settled_posts(views, xact_index, t);
        assert(settled.take(i as int) =~= settled);
    }
    journal.add_xact(xact);
    proof {
        if journal_wf(before) && given.posts.len() == 0 && posts_fit(before, views) {
            lemma_finalized_with_wf(before, given, views);
        }
    }
    Ok(())
}

/// Under the conditions stated, the journal that `finalize` leaves is
/// consistent.
proof fn lemma_finalized_with_wf(j: JournalView, xact: XactView, posts: Seq<PostView>)
    requires
        journal_wf(j),
        xact.posts.len() == 0,
        posts_fit(j, posts),
        j.posts.len() + posts.len() <= usize::MAX,
        j.xacts.len() <= usize::MAX,
        finalized_with(j, xact, posts) is Ok,
    ensures
        journal_wf(finalized_with(j, xact, posts)->Ok_0),
{
    let after = finalized_with(j, xact, posts)->Ok_0;
    let amounts = stated_amounts(posts);
    let t = tally(amounts)->Ok_0;
    let x = j.xacts.len() as usize;
    let settled = settled_posts(posts, x, t);
    lemma_tally_commodity(amounts);
    assert(amount_in(after, Some(inferred(t)))) by {
        match t.total {
            Some(sum) => {
                let w = choose|i: int|
                    0 <= i < amounts.len() && (#[trigger] amounts[i] matches Some(a) && a.commodity
                        == sum.commodity);
                assert(amount_in(j, posts[w].amount));
            },
            None => {},
        }
    }
    assert forall|p: int| 0 <= p < after.posts.len() implies {
        &&& (#[trigger] after.posts[p]).account < after.accounts.len()
        &&& after.posts[p].xact < after.xacts.len()
        &&& amount_in(after, after.posts[p].amount)
        &&& amount_in(after, after.posts[p].cost)
    } by {
        if p < j.posts.len() {
            assert(after.posts[p] == j.posts[p]);
        } else {
            let i = p - j.posts.len();
            assert(after.posts[p] == settled[i]);
            assert(amount_in(j, posts[i].amount));
            assert(amount_in(j, posts[i].cost));
        }
    }
    assert forall|y: int, i: int|
        0 <= y < after.xacts.len() && 0 <= i < after.xacts[y].posts.len() implies {
        &&& (#[trigger] after.xacts[y].posts[i]) < after.posts.len()
        &&& after.posts[after.xacts[y].posts[i] as int].xact == y
    } by {
        if y < j.xacts.len() {
            assert(after.xacts[y] == j.xacts[y]);
            assert(after.posts[j.xacts[y].posts[i] as int] == j.posts[j.xacts[y].posts[i] as int]);
        } else {
            assert(after.xacts[y].posts[i] == (j.posts.len() + i) as usize);
            assert(after.posts[j.posts.len() + i] == settled[i]);
        }
    }
    assert forall|a: int, i: int|
        0 <= a < after.accounts.len() && 0 <= i < after.accounts[a].posts.len() implies {
        &&& (#[trigger] after.accounts[a].posts[i]) < after.posts.len()
        &&& after.posts[after.accounts[a].posts[i] as int].account == a
    } by {
        assert(after.posts[j.accounts[a].posts[i] as int] == j.posts[j.accounts[a].posts[i] as int]);
    }
}

/// Balances the transaction at `xact_index`: goes through its postings in
/// their order, adds up their amounts, and gives the one posting without
/// an amount what turns the total to zero. A transaction in which every
/// posting has an amount is left as it is, whatever its total. On an
/// error the journal is left as it was.
pub fn finalize_indexed(xact_index: XactIndex, journal: &mut Journal) -> (res: Result<
    (),
    LedgerError,
>)
    ensures
        match finalized(old(journal)@, xact_index) {
            Ok(j) => res is Ok && final(journal)@ == j,
            Err(e) => res == Err::<(), LedgerError>(e) && final(journal)@ == old(journal)@,
        },
        old(journal).wf() ==> final(journal).wf(),
{
    if xact_index >= journal.xacts.len() {
        return Err(LedgerError::IndexNotFound);
    }
    let ghost before = journal@;
    let ghost listed = before.xacts[xact_index as int].posts;
    let count = journal.xacts[xact_index].posts.len();
    let mut amounts: Vec<Option<Amount>> = Vec::new();
    let mut i: usize = 0;
    while i < count
        invariant
            0 <= i <= count,
            journal@ == before,
            xact_index < journal.xacts.len(),
            listed == before.xacts[xact_index as int].posts,
            listed == journal.xacts@[xact_index as int].posts@,
            count == listed.len(),
            amounts@.len() == i,
            forall|k: int| 0 <= k < i ==> (#[trigger] listed[k]) < before.posts.len(),
            forall|k: int|
                0 <= k < i ==> amount_view(#[trigger] amounts@[k]) == before.posts[listed[k] as int].amount,
        decreases count - i,
    {
        let at = journal.xacts[xact_index].posts[i];
        if at >= journal.posts.len() {
            assert(!posts_exist(before, xact_index as int));
            return Err(LedgerError::IndexNotFound);
        }
        amounts.push(journal.posts[at].amount);
        i = i + 1;
    }
    assert(posts_exist(before, xact_index as int));
    assert(amount_views(amounts@) =~= xact_amounts(before, xact_index as int));
    match resolve_elided(&amounts) {
        Ok(Some(found)) => {
            proof {
                lemma_tally_elided(xact_amounts(before, xact_index as int));
            }
            let at = journal.xacts[xact_index].posts[found.0];
            let mut post = journal.posts[at];
            post.amount = Some(found.1);
            journal.posts.set(at, post);
            proof {
                let t = tally(xact_amounts(before, xact_index as int))->Ok_0;
                assert(journal@.posts =~= with_amount(before, at as int, inferred(t)).posts);
                assert(journal@.accounts =~= before.accounts);
                assert(journal@.commodities =~= before.commodities);
                assert(journal@.xacts =~= before.xacts);
                if journal_wf(before) {
                    lemma_inferred_in_journal(before, xact_index as int);
                }
            }
            Ok(())
        },
        Ok(None) => Ok(()),
        Err(e) => Err(e),
    }
}

/// The double-entry rule: once a transaction with a posting without an
/// amount was balanced, each of its postings has an amount, and these add
/// up to zero.
pub proof fn lemma_finalized_adds_up(j: JournalView, x: XactIndex)
    requires
        finalized(j, x) is Ok,
        tally(xact_amounts(j, x as int))->Ok_0.elided is Some,
        forall|i: int|
            0 <= i < xact_amounts(j, x as int).len() ==> (#[trigger] xact_amounts(
                j,
                x as int,
            )[i] matches Some(a) ==> a.quantity.scale <= MAX_SCALE),
    ensures
        total_units(xact_amounts(finalized(j, x)->Ok_0, x as int)) == 0,
        forall|i: int|
            0 <= i < j.xacts[x as int].posts.len() ==> (#[trigger] xact_amounts(
                finalized(j, x)->Ok_0,
                x as int,
            )[i]) is Some,
{
    let amounts = xact_amounts(j, x as int);
    let t = tally(amounts)->Ok_0;
    let k = t.elided->0;
    let after = finalized(j, x)->Ok_0;
    let filled = amounts.update(k, Some(inferred(t)));
    lemma_tally_sums(amounts);
    assert(xact_amounts(after, x as int) =~= filled) by {
        assert forall|i: int| 0 <= i < amounts.len() implies xact_amounts(after, x as int)[i]
            == filled[i] by {
            if i != k {
                assert(amounts[i] is Some);
                assert(amounts[k] is None);
            }
        }
    }
    lemma_total_units_update(amounts, k, inferred(t));
    match t.total {
        Some(sum) => {
            lemma_negated_units(sum.quantity);
        },
        None => {
            assert(0 * pow10(MAX_SCALE as nat) == 0);
        },
    }
}

/// In a consistent journal the amount that balances a transaction is
/// tagged with a commodity of the journal, if with any.
proof fn lemma_inferred_in_journal(j: JournalView, x: int)
    requires
        journal_wf(j),
        0 <= x < j.xacts.len(),
        tally(xact_amounts(j, x)) is Ok,
    ensures
        amount_in(j, Some(inferred(tally(xact_amounts(j, x))->Ok_0))),
{
    let amounts = xact_amounts(j, x);
    let t = tally(amounts)->Ok_0;
    lemma_tally_commodity(amounts);
    match t.total {
        Some(sum) => {
            let w = choose|i: int|
                0 <= i < amounts.len() && (#[trigger] amounts[i] matches Some(a) && a.commodity
                    == sum.commodity);
            let p = j.xacts[x].posts[w];
            assert(amount_in(j, j.posts[p as int].amount));
        },
        None => {},
    }
}

/// The total of a tally is in the commodity of one of the amounts.
proof fn lemma_tally_commodity(amounts: Seq<Option<AmountView>>)
    requires
        tally(amounts) is Ok,
    ensures
        tally(amounts)->Ok_0.total matches Some(sum) ==> exists|i: int|
            0 <= i < amounts.len() && (#[trigger] amounts[i] matches Some(a) && a.commodity
                == sum.commodity),
    decreases amounts.len(),
{
    if amounts.len() > 0 {
        let init = amounts.drop_last();
        lemma_tally_commodity(init);
        let before = tally(init)->Ok_0;
        match tally(amounts)->Ok_0.total {
            Some(sum) => {
                match before.total {
                    Some(earlier) => {
                        let w = choose|i: int|
                            0 <= i < init.len() && (#[trigger] init[i] matches Some(a)
                                && a.commodity == earlier.commodity);
                        assert(amounts[w] == init[w]);
                    },
                    None => {
                        assert(amounts[amounts.len() - 1] == amounts.last());
                    },
                }
            },
            None => {},
        }
    }
}

} // verus!
