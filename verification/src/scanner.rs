//! The line scanner: one raw line in, positional tokens out.
//!
//! Two grammars are recognised. A transaction header reads
//! `DATE[=AUXDATE] [PAYEE] [  ; NOTE]`; a posting reads
//! `ACCOUNT  AMOUNT [@ PRICE]`. A malformed line never fails: the tokens
//! that cannot be found come back empty.

use vstd::prelude::*;
use crate::text::{
    chars_of, find_either, find_seq, is_ascii_digit, is_digit, lemma_find_seq_is_first,
    scan_for_either, scan_for_seq, slice_of, trim, trim_range,
};

verus! {

/// The mark that opens a note in a header: two spaces and a semicolon.
pub open spec fn note_mark() -> Seq<char> {
    seq![' ', ' ', ';']
}

/// The mark that closes an account name in a posting: two spaces.
pub open spec fn account_mark() -> Seq<char> {
    seq![' ', ' ']
}

/// Where the date of a header ends: at the first `=` or space.
pub open spec fn header_date_end(s: Seq<char>) -> int {
    find_either(s, 0, '=', ' ')
}

/// Whether the date of a header is followed by `=` and an auxiliary date.
pub open spec fn header_has_aux(s: Seq<char>) -> bool {
    header_date_end(s) < s.len() && s[header_date_end(s)] == '='
}

/// Where the date section of a header ends: after the auxiliary date where
/// there is one, else after the date.
pub open spec fn header_dates_end(s: Seq<char>) -> int {
    if header_has_aux(s) {
        find_either(s, header_date_end(s) + 1, ' ', ' ')
    } else {
        header_date_end(s)
    }
}

/// Where the note mark of a header stands; the length of `s` where the
/// header has no note.
pub open spec fn header_note_at(s: Seq<char>) -> int {
    find_seq(s, header_dates_end(s), note_mark())
}

/// The date of a header.
pub open spec fn header_date(s: Seq<char>) -> Seq<char> {
    trim(s.subrange(0, header_date_end(s)))
}

/// The auxiliary date of a header; empty where it has none.
pub open spec fn header_aux_date(s: Seq<char>) -> Seq<char> {
    if header_has_aux(s) {
        trim(s.subrange(header_date_end(s) + 1, header_dates_end(s)))
    } else {
        Seq::empty()
    }
}

/// The payee of a header: what stands between the date section and the
/// note mark.
pub open spec fn header_payee(s: Seq<char>) -> Seq<char> {
    trim(s.subrange(header_dates_end(s), header_note_at(s)))
}

/// The note of a header: what follows the note mark; empty where there is
/// no mark.
pub open spec fn header_note(s: Seq<char>) -> Seq<char> {
    if header_note_at(s) < s.len() {
        trim(s.subrange(header_note_at(s) + 3, s.len() as int))
    } else {
        Seq::empty()
    }
}

/// Whether `c` can stand in a numeral: a digit, a sign or the point.
pub open spec fn is_numeral_char(c: char) -> bool {
    is_digit(c) || c == '.' || c == '-' || c == '+'
}

/// The end of the run of numeral characters that starts at `from`.
pub open spec fn numeral_run_end(s: Seq<char>, from: int) -> int
    decreases s.len() - from,
{
    if from < 0 || from >= s.len() || !is_numeral_char(s[from]) {
        from
    } else {
        numeral_run_end(s, from + 1)
    }
}

/// The end of the run of characters that starts at `from` and holds no
/// numeral character.
pub open spec fn symbol_run_end(s: Seq<char>, from: int) -> int
    decreases s.len() - from,
{
    if from < 0 || from >= s.len() || is_numeral_char(s[from]) {
        from
    } else {
        symbol_run_end(s, from + 1)
    }
}

/// Whether an amount text puts its numeral first, before the symbol.
pub open spec fn numeral_leads(a: Seq<char>) -> bool {
    a.len() > 0 && is_numeral_char(a[0])
}

/// The numeral of an amount text: the leading run of numeral characters,
/// or the run that follows a leading symbol.
pub open spec fn amount_quantity(a: Seq<char>) -> Seq<char> {
    if numeral_leads(a) {
        a.subrange(0, numeral_run_end(a, 0))
    } else {
        a.subrange(symbol_run_end(a, 0), numeral_run_end(a, symbol_run_end(a, 0)))
    }
}

/// The commodity symbol of an amount text: what follows a leading
/// numeral, or what precedes the numeral.
pub open spec fn amount_symbol(a: Seq<char>) -> Seq<char> {
    if numeral_leads(a) {
        trim(a.subrange(numeral_run_end(a, 0), a.len() as int))
    } else {
        trim(a.subrange(0, symbol_run_end(a, 0)))
    }
}

/// Where the account name of a trimmed posting ends: at the first run of
/// two spaces.
pub open spec fn posting_account_end(t: Seq<char>) -> int {
    find_seq(t, 0, account_mark())
}

/// Where the `@` of a trimmed posting stands, looking behind the account.
pub open spec fn posting_price_at(t: Seq<char>) -> int {
    find_either(t, posting_account_end(t), '@', '@')
}

/// The account name of a posting.
pub open spec fn posting_account(s: Seq<char>) -> Seq<char> {
    trim(trim(s).subrange(0, posting_account_end(trim(s))))
}

/// The amount text of a posting: what stands between the account and `@`.
pub open spec fn posting_amount_text(s: Seq<char>) -> Seq<char> {
    trim(trim(s).subrange(posting_account_end(trim(s)), posting_price_at(trim(s))))
}

/// The price text of a posting: what follows `@`; empty where there is
/// none.
pub open spec fn posting_price_text(s: Seq<char>) -> Seq<char> {
    if posting_price_at(trim(s)) < trim(s).len() {
        trim(trim(s).subrange(posting_price_at(trim(s)) + 1, trim(s).len() as int))
    } else {
        Seq::empty()
    }
}

/// Splits a transaction header into date, auxiliary date, payee and note,
/// each trimmed; what the line does not hold comes back empty.
pub fn tokenize_header<'a>(line: &'a str) -> (tokens: [&'a str; 4])
    ensures
        tokens[0]@ == header_date(line@),
        tokens[1]@ == header_aux_date(line@),
        tokens[2]@ == header_payee(line@),
        tokens[3]@ == header_note(line@),
{
    let chars = chars_of(line);
    let n = chars.len();
    let date_end = scan_for_either(&chars, 0, '=', ' ');
    let has_aux = date_end < n && chars[date_end] == '=';
    let dates_end = if has_aux {
        scan_for_either(&chars, date_end + 1, ' ', ' ')
    } else {
        date_end
    };
    let mark: Vec<char> = vec![' ', ' ', ';'];
    assert(mark@ =~= note_mark());
    let note_at = scan_for_seq(&chars, dates_end, &mark);
    proof {
        lemma_find_seq_is_first(chars@, dates_end as int, note_mark());
    }
    let (d0, d1) = trim_range(&chars, 0, date_end);
    let date = slice_of(line, d0, d1);
    let aux_date = if has_aux {
        let (a0, a1) = trim_range(&chars, date_end + 1, dates_end);
        slice_of(line, a0, a1)
    } else {
        slice_of(line, 0, 0)
    };
    let (payee_from, payee_to) = trim_range(&chars, dates_end, note_at);
    let payee = slice_of(line, payee_from, payee_to);
    let note = if note_at < n {
        let (n0, n1) = trim_range(&chars, note_at + 3, n);
        slice_of(line, n0, n1)
    } else {
        slice_of(line, 0, 0)
    };
    [date, aux_date, payee, note]
}

/// Finds the end of the run of numeral characters that starts at `from`,
/// looking no further than `to`.
fn scan_numeral_run(chars: &Vec<char>, lo: usize, from: usize, to: usize) -> (r: usize)
    requires
        lo <= from <= to <= chars.len(),
    ensures
        from <= r <= to,
        r - lo == numeral_run_end(chars@.subrange(lo as int, to as int), from - lo),
{
    let ghost a = chars@.subrange(lo as int, to as int);
    let mut i: usize = from;
    while i < to && (is_ascii_digit(chars[i]) || chars[i] == '.' || chars[i] == '-' || chars[i]
        == '+')
        invariant
            lo <= from <= i <= to <= chars.len(),
            a == chars@.subrange(lo as int, to as int),
            numeral_run_end(a, from - lo) == numeral_run_end(a, i - lo),
        decreases to - i,
    {
        i = i + 1;
    }
    i
}

/// Finds the end of the run without numeral characters that starts at
/// `from`, looking no further than `to`.
fn scan_symbol_run(chars: &Vec<char>, lo: usize, from: usize, to: usize) -> (r: usize)
    requires
        lo <= from <= to <= chars.len(),
    ensures
        from <= r <= to,
        r - lo == symbol_run_end(chars@.subrange(lo as int, to as int), from - lo),
{
    let ghost a = chars@.subrange(lo as int, to as int);
    let mut i: usize = from;
    while i < to && !(is_ascii_digit(chars[i]) || chars[i] == '.' || chars[i] == '-' || chars[i]
        == '+')
        invariant
            lo <= from <= i <= to <= chars.len(),
            a == chars@.subrange(lo as int, to as int),
            symbol_run_end(a, from - lo) == symbol_run_end(a, i - lo),
        decreases to - i,
    {
        i = i + 1;
    }
    i
}

/// Splits the amount text that stands in `chars` between `lo` and `hi`
/// into its numeral and its symbol: the bounds of the numeral, then those
/// of the symbol.
fn split_amount(chars: &Vec<char>, lo: usize, hi: usize) -> (r: ((usize, usize), (usize, usize)))
    requires
        lo <= hi <= chars.len(),
    ensures
        lo <= r.0.0 <= r.0.1 <= hi,
        lo <= r.1.0 <= r.1.1 <= hi,
        chars@.subrange(r.0.0 as int, r.0.1 as int) == amount_quantity(
            chars@.subrange(lo as int, hi as int),
        ),
        chars@.subrange(r.1.0 as int, r.1.1 as int) == amount_symbol(
            chars@.subrange(lo as int, hi as int),
        ),
{
    let ghost a = chars@.subrange(lo as int, hi as int);
    if lo < hi && (is_ascii_digit(chars[lo]) || chars[lo] == '.' || chars[lo] == '-' || chars[lo]
        == '+') {
        let q1 = scan_numeral_run(chars, lo, lo, hi);
        let (s0, s1) = trim_range(chars, q1, hi);
        assert(a.subrange(0, q1 - lo) == chars@.subrange(lo as int, q1 as int));
        assert(a.subrange(q1 - lo, a.len() as int) == chars@.subrange(q1 as int, hi as int));
        ((lo, q1), (s0, s1))
    } else {
        let q0 = scan_symbol_run(chars, lo, lo, hi);
        let q1 = scan_numeral_run(chars, lo, q0, hi);
        let (s0, s1) = trim_range(chars, lo, q0);
        assert(a.subrange(q0 - lo, q1 - lo) == chars@.subrange(q0 as int, q1 as int));
        assert(a.subrange(0, q0 - lo) == chars@.subrange(lo as int, q0 as int));
        ((q0, q1), (s0, s1))
    }
}

/// Splits a posting into account, quantity, commodity symbol, price
/// quantity and price symbol; what the line does not hold comes back
/// empty.
pub fn scan_posting<'a>(line: &'a str) -> (tokens: [&'a str; 5])
    ensures
        tokens[0]@ == posting_account(line@),
        tokens[1]@ == amount_quantity(posting_amount_text(line@)),
        tokens[2]@ == amount_symbol(posting_amount_text(line@)),
        tokens[3]@ == amount_quantity(posting_price_text(line@)),
        tokens[4]@ == amount_symbol(posting_price_text(line@)),
{
    let raw = chars_of(line);
    let (t0, t1) = trim_range(&raw, 0, raw.len());
    assert(raw@.subrange(0, raw.len() as int) == raw@);
    let body = slice_of(line, t0, t1);
    let chars = chars_of(body);
    let n = chars.len();
    let mark: Vec<char> = vec![' ', ' '];
    assert(mark@ =~= account_mark());
    let account_end = scan_for_seq(&chars, 0, &mark);
    let price_at = scan_for_either(&chars, account_end, '@', '@');
    let (a0, a1) = trim_range(&chars, 0, account_end);
    let account = slice_of(body, a0, a1);
    let (m0, m1) = trim_range(&chars, account_end, price_at);
    let ((q0, q1), (s0, s1)) = split_amount(&chars, m0, m1);
    let quantity = slice_of(body, q0, q1);
    let symbol = slice_of(body, s0, s1);
    if price_at < n {
        let (c0, c1) = trim_range(&chars, price_at + 1, n);
        let ((pq0, pq1), (ps0, ps1)) = split_amount(&chars, c0, c1);
        [account, quantity, symbol, slice_of(body, pq0, pq1), slice_of(body, ps0, ps1)]
    } else {
        let ghost e = Seq::<char>::empty();
        assert(chars@.subrange(0, 0) =~= e);
        assert(amount_quantity(e) =~= e);
        assert(amount_symbol(e) =~= e) by {
            assert(e.subrange(0, 0) =~= e);
        }
        [account, quantity, symbol, slice_of(body, 0, 0), slice_of(body, 0, 0)]
    }
}

} // verus!
