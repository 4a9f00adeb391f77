//! The parser: a state machine that is fed one line at a time.
//!
//! At top level a line is a comment, a directive or the header of a
//! transaction. Under a header every indented line is a posting or a
//! note, and a blank line, or the end of the input, closes the
//! transaction and has it balanced.

use vstd::prelude::*;
use vstd::string::StringExecFns;
use crate::account::{Account, AccountView};
use crate::amount::{Amount, AmountView};
use crate::commodity::Commodity;
use crate::date::{date_of, Date};
use crate::error::LedgerError;
use crate::journal::{
    account_names, amount_in, journal_wf, position_of, with_account, with_commodity, Journal,
    JournalView, XactIndex,
};
use crate::post::{amount_view, Post, PostView};
use crate::quantity::{in_range, is_decimal_literal, literal_view};
use crate::scanner::{
    amount_quantity, amount_symbol, header_aux_date, header_date, header_note, header_payee,
    posting_account, posting_amount_text, posting_price_text, scan_posting, tokenize_header,
};
use crate::text::{
    chars_of, find_either, is_digit, lemma_find_either_is_first, scan_for_either, slice_of, trim,
    trim_range,
};
use crate::xact::{created, finalize_indexed, finalized, Xact, XactView};

verus! {

/// What a line is, going by how it starts.
#[derive(Clone, Copy, Debug, PartialEq, Eq, Structural)]
pub enum LineKind {
    /// Nothing but white space.
    Blank,
    /// A comment: it starts with `;`, `#`, `*` or `|`.
    Comment,
    /// An option: it starts with `-`.
    OptionDirective,
    /// A price: it starts with `P`.
    PriceDirective,
    /// The header of a transaction: it starts with a digit.
    XactHeader,
    /// A line under a header: it starts with a space.
    Indented,
    /// Anything else.
    Other,
}

/// Where the parser stands.
#[derive(Clone, Copy, Debug, PartialEq, Eq, Structural)]
pub enum State {
    /// Between transactions.
    TopLevel,
    /// Under the header of the transaction at the given index.
    InTransactionBody(XactIndex),
}

/// What a parser stands for: the journal it has built and its state.
pub struct ParserView {
    pub journal: JournalView,
    pub state: State,
}

/// Where a parse has got to, and the error that stopped it, if any. The
/// line that gave the error has changed nothing.
pub struct Outcome {
    pub parser: ParserView,
    pub error: Option<LedgerError>,
}

/// The kind of a line.
pub open spec fn line_kind(line: Seq<char>) -> LineKind {
    if trim(line).len() == 0 {
        LineKind::Blank
    } else if line[0] == ';' || line[0] == '#' || line[0] == '*' || line[0] == '|' {
        LineKind::Comment
    } else if line[0] == '-' {
        LineKind::OptionDirective
    } else if is_digit(line[0]) {
        LineKind::XactHeader
    } else if line[0] == 'P' {
        LineKind::PriceDirective
    } else if line[0] == ' ' {
        LineKind::Indented
    } else {
        LineKind::Other
    }
}

/// The transaction that a header line gives.
pub open spec fn header_xact(line: Seq<char>) -> Result<XactView, LedgerError> {
    created(header_date(line), header_aux_date(line), header_payee(line), header_note(line))
}

/// The journal after the amount written by a numeral and a symbol was
/// read, and that amount. A symbol that is not blank is interned, and
/// tags the amount; a numeral that is no decimal literal in range gives
/// no amount.
pub open spec fn amount_read(j: JournalView, numeral: Seq<char>, symbol: Seq<char>) -> (
    JournalView,
    Option<AmountView>,
) {
    let tagged = trim(symbol).len() > 0;
    let commodity = if tagged {
        Some(position_of(j.commodities, symbol) as usize)
    } else {
        None
    };
    (
        if tagged {
            with_commodity(j, symbol)
        } else {
            j
        },
        if is_decimal_literal(numeral) && in_range(literal_view(numeral)) {
            Some(AmountView { quantity: literal_view(numeral), commodity })
        } else {
            None
        },
    )
}

/// The journal with `post` added at the end of the postings, and listed
/// by its account and by its transaction.
pub open spec fn linked(j: JournalView, post: PostView) -> JournalView {
    let at = j.posts.len() as usize;
    let account = j.accounts[post.account as int];
    let xact = j.xacts[post.xact as int];
    JournalView {
        accounts: j.accounts.update(
            post.account as int,
            AccountView { posts: account.posts.push(at), ..account },
        ),
        xacts: j.xacts.update(post.xact as int, XactView { posts: xact.posts.push(at), ..xact }),
        posts: j.posts.push(post),
        ..j
    }
}

/// The journal after a posting line was read under the transaction at
/// `x`: the account is interned, then the commodity of the amount and
/// that of the price, and the posting is added and linked.
pub open spec fn posted(j: JournalView, x: XactIndex, line: Seq<char>) -> Result<
    JournalView,
    LedgerError,
> {
    if x >= j.xacts.len() {
        Err(LedgerError::IndexNotFound)
    } else {
        let name = posting_account(line);
        let with_name = with_account(j, AccountView { name, posts: Seq::empty() });
        let amount = amount_read(
            with_name,
            amount_quantity(posting_amount_text(line)),
            amount_symbol(posting_amount_text(line)),
        );
        let cost = amount_read(
            amount.0,
            amount_quantity(posting_price_text(line)),
            amount_symbol(posting_price_text(line)),
        );
        Ok(
            linked(
                cost.0,
                PostView {
                    account: position_of(account_names(j.accounts), name) as usize,
                    xact: x,
                    amount: amount.1,
                    cost: cost.1,
                },
            ),
        )
    }
}

/// Whether an indented line is a note: what follows the indentation
/// starts with `;`.
pub open spec fn is_note_line(line: Seq<char>) -> bool {
    trim(line).len() > 0 && trim(line)[0] == ';'
}

/// The text of a note line: what follows the `;`, trimmed.
pub open spec fn note_text(line: Seq<char>) -> Seq<char> {
    trim(trim(line).subrange(1, trim(line).len() as int))
}

/// The journal after `text` was attached to the transaction at `x`: it
/// becomes the note, or a further line of the note that is there.
pub open spec fn noted(j: JournalView, x: XactIndex, text: Seq<char>) -> Result<
    JournalView,
    LedgerError,
> {
    if x >= j.xacts.len() {
        Err(LedgerError::IndexNotFound)
    } else {
        let xact = j.xacts[x as int];
        Ok(
            JournalView {
                xacts: j.xacts.update(
                    x as int,
                    XactView {
                        note: Some(
                            match xact.note {
                                Some(n) => n + "\n"@ + text,
                                None => text,
                            },
                        ),
                        ..xact
                    },
                ),
                ..j
            },
        )
    }
}

/// The parser with another journal, in the same state.
pub open spec fn carrying(p: ParserView, journal: Result<JournalView, LedgerError>) -> Result<
    ParserView,
    LedgerError,
> {
    match journal {
        Ok(j) => Ok(ParserView { journal: j, state: p.state }),
        Err(e) => Err(e),
    }
}

/// The parser after the transaction at `x` was closed.
pub open spec fn closed_at(p: ParserView, x: XactIndex) -> Result<ParserView, LedgerError> {
    match finalized(p.journal, x) {
        Ok(j) => Ok(ParserView { journal: j, state: State::TopLevel }),
        Err(e) => Err(e),
    }
}

/// The parser after the header of a transaction was read.
pub open spec fn opened(p: ParserView, line: Seq<char>) -> Result<ParserView, LedgerError> {
    match header_xact(line) {
        Ok(x) => Ok(
            ParserView {
                journal: JournalView { xacts: p.journal.xacts.push(x), ..p.journal },
                state: State::InTransactionBody(p.journal.xacts.len() as usize),
            },
        ),
        Err(e) => Err(e),
    }
}

/// The transition function: the parser after one more line.
///
/// At top level blank lines, comments, options and prices are passed
/// over, a header opens a transaction, and any other line is malformed.
/// Under a header an indented line is a note or a posting, a blank line
/// closes the transaction, and any other line is malformed.
pub open spec fn step(p: ParserView, line: Seq<char>) -> Result<ParserView, LedgerError> {
    match p.state {
        State::TopLevel => match line_kind(line) {
            LineKind::Blank
            | LineKind::Comment
            | LineKind::OptionDirective
            | LineKind::PriceDirective => Ok(p),
            LineKind::XactHeader => opened(p, line),
            LineKind::Indented | LineKind::Other => Err(LedgerError::MalformedLine),
        },
        State::InTransactionBody(x) => match line_kind(line) {
            LineKind::Indented => if is_note_line(line) {
                carrying(p, noted(p.journal, x, note_text(line)))
            } else {
                carrying(p, posted(p.journal, x, line))
            },
            LineKind::Blank => closed_at(p, x),
            _ => Err(LedgerError::MalformedLine),
        },
    }
}

/// The parser after the end of the input: a transaction that is still
/// open is closed.
pub open spec fn finished(p: ParserView) -> Result<ParserView, LedgerError> {
    match p.state {
        State::TopLevel => Ok(p),
        State::InTransactionBody(x) => closed_at(p, x),
    }
}

/// The lines of `s` from `from` on: each ends before a line feed or at
/// the end of `s`.
pub open spec fn lines_from(s: Seq<char>, from: int) -> Seq<Seq<char>>
    decreases s.len() - from,
{
    if from < 0 || from >= s.len() {
        Seq::empty()
    } else if find_either(s, from, '\n', '\n') >= s.len() {
        seq![s.subrange(from, s.len() as int)]
    } else {
        proof {
            lemma_find_either_is_first(s, from, '\n', '\n');
        }
        seq![s.subrange(from, find_either(s, from, '\n', '\n'))] + lines_from(
            s,
            find_either(s, from, '\n', '\n') + 1,
        )
    }
}

/// Where feeding the lines, one after the other, and then the end of the
/// input takes the parser. The first error stops it.
pub open spec fn run(p: ParserView, lines: Seq<Seq<char>>) -> Outcome
    decreases lines.len(),
{
    if lines.len() == 0 {
        match finished(p) {
            Ok(q) => Outcome { parser: q, error: None },
            Err(e) => Outcome { parser: p, error: Some(e) },
        }
    } else {
        match step(p, lines[0]) {
            Ok(q) => run(q, lines.drop_first()),
            Err(e) => Outcome { parser: p, error: Some(e) },
        }
    }
}

/// What parsing a whole text from scratch gives.
pub open spec fn parsed(text: Seq<char>) -> Result<JournalView, LedgerError> {
    let start = ParserView {
        journal: JournalView {
            accounts: Seq::empty(),
            commodities: Seq::empty(),
            xacts: Seq::empty(),
            posts: Seq::empty(),
        },
        state: State::TopLevel,
    };
    match run(start, lines_from(text, 0)).error {
        Some(e) => Err(e),
        None => Ok(run(start, lines_from(text, 0)).parser.journal),
    }
}

/// Tells what kind of line `line` is.
pub fn classify(line: &str) -> (kind: LineKind)
    ensures
        kind == line_kind(line@),
{
    let chars = chars_of(line);
    let (lo, hi) = trim_range(&chars, 0, chars.len());
    assert(chars@.subrange(0, chars.len() as int) == chars@);
    if lo == hi {
        return LineKind::Blank;
    }
    let c = chars[0];
    if c == ';' || c == '#' || c == '*' || c == '|' {
        LineKind::Comment
    } else if c == '-' {
        LineKind::OptionDirective
    } else if '0' <= c && c <= '9' {
        LineKind::XactHeader
    } else if c == 'P' {
        LineKind::PriceDirective
    } else if c == ' ' {
        LineKind::Indented
    } else {
        LineKind::Other
    }
}

/// Reads a date such as `2023-05-01`; nothing where the text is no date.
pub fn parse_date(date_str: &str) -> (res: Option<Date>)
    ensures
        res == date_of(date_str@),
        res matches Some(d) ==> d.wf(),
{
    Date::parse(date_str)
}

/// Reads the amount that a numeral and a symbol write, and interns the
/// symbol where it is not blank.
fn read_amount(numeral: &str, symbol: &str, journal: &mut Journal) -> (res: Option<Amount>)
    ensures
        final(journal)@ == amount_read(old(journal)@, numeral@, symbol@).0,
        amount_view(res) == amount_read(old(journal)@, numeral@, symbol@).1,
        amount_in(final(journal)@, amount_view(res)),
        old(journal).wf() ==> final(journal).wf(),
{
    let commodity_index = match Commodity::parse(symbol) {
        Some(c) => Some(journal.add_commodity(c)),
        None => None,
    };
    Amount::parse(numeral, commodity_index)
}

/// Reads a posting line under the transaction at `xact_index`: interns
/// its account and its commodities, adds the posting to the journal, and
/// lists it in the account and in the transaction. On an error the
/// journal is left as it was.
pub fn parse_post(input: &str, xact_index: XactIndex, journal: &mut Journal) -> (res: Result<
    (),
    LedgerError,
>)
    ensures
        match posted(old(journal)@, xact_index, input@) {
            Ok(j) => res is Ok && final(journal)@ == j,
            Err(e) => res == Err::<(), LedgerError>(e) && final(journal)@ == old(journal)@,
        },
        old(journal).wf() ==> final(journal).wf(),
{
    if xact_index >= journal.xacts.len() {
        return Err(LedgerError::IndexNotFound);
    }
    let tokens = scan_posting(input);
    let account = Account::parse(tokens[0]);
    let account_index = journal.add_account(account);
    let amount = read_amount(tokens[1], tokens[2], journal);
    let cost = read_amount(tokens[3], tokens[4], journal);
    let ghost interned = journal@;
    let post = Post::new(account_index, xact_index, amount, cost);
    let post_index = journal.add_post(post);
    journal.accounts[account_index].post_indices.push(post_index);
    journal.xacts[xact_index].posts.push(post_index);
    proof {
        let after = linked(interned, post@);
        assert(journal@.accounts =~= after.accounts);
        assert(journal@.xacts =~= after.xacts);
        assert(journal@.posts =~= after.posts);
        assert(journal@.commodities =~= after.commodities);
        if old(journal).wf() {
            lemma_linked_wf(interned, post@);
        }
    }
    Ok(())
}

/// Adding a posting to a consistent journal and listing it in its
/// account and its transaction leaves the journal consistent.
proof fn lemma_linked_wf(j: JournalView, post: PostView)
    requires
        journal_wf(j),
        j.posts.len() <= usize::MAX,
        post.account < j.accounts.len(),
        post.xact < j.xacts.len(),
        amount_in(j, post.amount),
        amount_in(j, post.cost),
    ensures
        journal_wf(linked(j, post)),
{
    let after = linked(j, post);
    let at = j.posts.len() as usize;
    assert forall|p: int| 0 <= p < after.posts.len() implies {
        &&& (#[trigger] after.posts[p]).account < after.accounts.len()
        &&& after.posts[p].xact < after.xacts.len()
        &&& amount_in(after, after.posts[p].amount)
        &&& amount_in(after, after.posts[p].cost)
    } by {
        if p < j.posts.len() {
            assert(after.posts[p] == j.posts[p]);
        }
    }
    assert forall|x: int, i: int|
        0 <= x < after.xacts.len() && 0 <= i < after.xacts[x].posts.len() implies {
        &&& (#[trigger] after.xacts[x].posts[i]) < after.posts.len()
        &&& after.posts[after.xacts[x].posts[i] as int].xact == x
    } by {
        if x == post.xact && i == j.xacts[x].posts.len() {
        } else {
            assert(after.xacts[x].posts[i] == j.xacts[x].posts[i]);
        }
    }
    assert forall|a: int, i: int|
        0 <= a < after.accounts.len() && 0 <= i < after.accounts[a].posts.len() implies {
        &&& (#[trigger] after.accounts[a].posts[i]) < after.posts.len()
        &&& after.posts[after.accounts[a].posts[i] as int].account == a
    } by {
        if a == post.account && i == j.accounts[a].posts.len() {
        } else {
            assert(after.accounts[a].posts[i] == j.accounts[a].posts[i]);
        }
    }
    assert(account_names(after.accounts) =~= account_names(j.accounts));
}

/// Attaches `text` to the transaction at `x` as its note, or as a
/// further line of its note.
fn attach_note(journal: &mut Journal, x: XactIndex, text: &str) -> (res: Result<(), LedgerError>)
    ensures
        match noted(old(journal)@, x, text@) {
            Ok(j) => res is Ok && final(journal)@ == j,
            Err(e) => res == Err::<(), LedgerError>(e) && final(journal)@ == old(journal)@,
        },
        old(journal).wf() ==> final(journal).wf(),
{
    if x >= journal.xacts.len() {
        return Err(LedgerError::IndexNotFound);
    }
    let ghost before = journal@;
    let note = match &journal.xacts[x].note {
        Some(n) => {
            let mut longer = n.clone();
            longer.append("\n");
            longer.append(text);
            longer
        },
        None => String::from_str(text),
    };
    journal.xacts[x].note = Some(note);
    proof {
        let after = noted(before, x, text@)->Ok_0;
        assert(journal@.xacts =~= after.xacts);
        assert(journal@.accounts =~= before.accounts);
        assert(journal@.posts =~= before.posts);
        assert(journal@.commodities =~= before.commodities);
        if journal_wf(before) {
            assert forall|y: int, i: int|
                0 <= y < after.xacts.len() && 0 <= i < after.xacts[y].posts.len() implies {
                &&& (#[trigger] after.xacts[y].posts[i]) < after.posts.len()
                &&& after.posts[after.xacts[y].posts[i] as int].xact == y
            } by {
                assert(after.xacts[y].posts[i] == before.xacts[y].posts[i]);
            }
        }
    }
    Ok(())
}

/// The parser: the journal it builds, and where it stands.
#[derive(Debug)]
pub struct Parser {
    pub journal: Journal,
    pub state: State,
}

impl View for Parser {
    type V = ParserView;

    open spec fn view(&self) -> ParserView {
        ParserView { journal: self.journal@, state: self.state }
    }
}

impl Parser {
    /// Whether the journal is consistent and the transaction that is
    /// open, if one is, is in it.
    pub open spec fn wf(&self) -> bool {
        &&& self.journal.wf()
        &&& self.state matches State::InTransactionBody(x) ==> x < self.journal@.xacts.len()
    }

    /// A parser at top level, with an empty journal.
    pub fn new() -> (res: Parser)
        ensures
            res@.state == State::TopLevel,
            res@.journal.accounts.len() == 0,
            res@.journal.commodities.len() == 0,
            res@.journal.xacts.len() == 0,
            res@.journal.posts.len() == 0,
            res.wf(),
    {
        Parser { journal: Journal::new(), state: State::TopLevel }
    }

    /// Reads the header of a transaction: adds the transaction to the
    /// journal and goes under it. A header whose date cannot be read
    /// changes nothing.
    pub fn xact_directive(&mut self, line: &str) -> (res: Result<(), LedgerError>)
        ensures
            match opened(old(self)@, line@) {
                Ok(p) => res is Ok && final(self)@ == p,
                Err(e) => res == Err::<(), LedgerError>(e) && final(self)@ == old(self)@,
            },
            old(self).wf() ==> final(self).wf(),
    {
        let tokens = tokenize_header(line);
        match Xact::create(tokens[0], tokens[1], tokens[2], tokens[3]) {
            Ok(xact) => {
                let xact_index = self.journal.add_xact(xact);
                self.state = State::InTransactionBody(xact_index);
                Ok(())
            },
            Err(e) => Err(e),
        }
    }

    /// Feeds the parser one line, without its line feed. On an error the
    /// parser is left as it was.
    pub fn read_next_directive(&mut self, line: &str) -> (res: Result<(), LedgerError>)
        ensures
            match step(old(self)@, line@) {
                Ok(p) => res is Ok && final(self)@ == p,
                Err(e) => res == Err::<(), LedgerError>(e) && final(self)@ == old(self)@,
            },
            old(self).wf() ==> final(self).wf(),
    {
        let kind = classify(line);
        match self.state {
            State::TopLevel => match kind {
                LineKind::Blank
                | LineKind::Comment
                | LineKind::OptionDirective
                | LineKind::PriceDirective => Ok(()),
                LineKind::XactHeader => self.xact_directive(line),
                LineKind::Indented | LineKind::Other => Err(LedgerError::MalformedLine),
            },
            State::InTransactionBody(x) => match kind {
                LineKind::Indented => {
                    let chars = chars_of(line);
                    let (lo, hi) = trim_range(&chars, 0, chars.len());
                    assert(chars@.subrange(0, chars.len() as int) == chars@);
                    assert(trim(line@)[0] == chars@[lo as int]);
                    if chars[lo] == ';' {
                        let (n0, n1) = trim_range(&chars, lo + 1, hi);
                        assert(trim(line@).subrange(1, trim(line@).len() as int) == chars@.subrange(
                            lo + 1,
                            hi as int,
                        ));
                        attach_note(&mut self.journal, x, slice_of(line, n0, n1))
                    } else {
                        parse_post(line, x, &mut self.journal)
                    }
                },
                LineKind::Blank => match finalize_indexed(x, &mut self.journal) {
                    Ok(()) => {
                        self.state = State::TopLevel;
                        Ok(())
                    },
                    Err(e) => Err(e),
                },
                _ => Err(LedgerError::MalformedLine),
            },
        }
    }

    /// Tells the parser that the input has ended: a transaction that is
    /// still open is closed. On an error the parser is left as it was.
    pub fn finish(&mut self) -> (res: Result<(), LedgerError>)
        ensures
            match finished(old(self)@) {
                Ok(p) => res is Ok && final(self)@ == p,
                Err(e) => res == Err::<(), LedgerError>(e) && final(self)@ == old(self)@,
            },
            old(self).wf() ==> final(self).wf(),
    {
        match self.state {
            State::TopLevel => Ok(()),
            State::InTransactionBody(x) => match finalize_indexed(x, &mut self.journal) {
                Ok(()) => {
                    self.state = State::TopLevel;
                    Ok(())
                },
                Err(e) => Err(e),
            },
        }
    }

    /// Feeds the parser a whole text, line by line, and then its end.
    /// The first error stops the parser where it stands.
    pub fn parse(&mut self, source: &str) -> (res: Result<(), LedgerError>)
        ensures
            final(self)@ == run(old(self)@, lines_from(source@, 0)).parser,
            match run(old(self)@, lines_from(source@, 0)).error {
                Some(e) => res == Err::<(), LedgerError>(e),
                None => res is Ok,
            },
            old(self).wf() ==> final(self).wf(),
    {
        let chars = chars_of(source);
        let n = chars.len();
        let mut start: usize = 0;
        while start < n
            invariant
                0 <= start <= n,
                n == chars.len(),
                chars@ == source@,
                run(old(self)@, lines_from(source@, 0)) == run(
                    self@,
                    lines_from(source@, start as int),
                ),
                old(self).wf() ==> self.wf(),
            decreases n - start,
        {
            let end = scan_for_either(&chars, start, '\n', '\n');
            let line = slice_of(source, start, end);
            proof {
                let rest = lines_from(source@, start as int);
                assert(rest[0] == line@);
                if end < n {
                    assert(rest.drop_first() =~= lines_from(source@, end + 1));
                } else {
                    assert(rest.drop_first() =~= lines_from(source@, n as int));
                }
            }
            match self.read_next_directive(line) {
                Ok(()) => {},
                Err(e) => {
                    return Err(e);
                },
            }
            start = if end < n {
                end + 1
            } else {
                n
            };
        }
        self.finish()
    }
}

/// Parses a whole text into a journal.
pub fn read(source: &str) -> (res: Result<Journal, LedgerError>)
    ensures
        match parsed(source@) {
            Ok(j) => res matches Ok(journal) && journal@ == j && journal.wf(),
            Err(e) => res matches Err(r) && r == e,
        },
{
    let mut parser = Parser::new();
    assert(parser@.journal.accounts =~= Seq::empty());
    assert(parser@.journal.commodities =~= Seq::empty());
    assert(parser@.journal.xacts =~= Seq::empty());
    assert(parser@.journal.posts =~= Seq::empty());
    match parser.parse(source) {
        Ok(()) => Ok(parser.journal),
        Err(e) => Err(e),
    }
}

} // verus!
