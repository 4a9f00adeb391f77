use ledger_rs_lib::account::Account;
use ledger_rs_lib::amount::Amount;
use ledger_rs_lib::commodity::Commodity;
use ledger_rs_lib::date::Date;
use ledger_rs_lib::error::LedgerError;
use ledger_rs_lib::journal::Journal;
use ledger_rs_lib::post::Post;
use ledger_rs_lib::quantity::Quantity;
use ledger_rs_lib::xact::{finalize, finalize_indexed, Xact};

fn dec(mantissa: i128, scale: u32) -> Quantity {
    Quantity::new(mantissa, scale).unwrap()
}

fn amount(mantissa: i128, scale: u32, commodity: Option<usize>) -> Option<Amount> {
    Some(Amount::new(dec(mantissa, scale), commodity))
}

#[test]
fn new_journal_is_empty() {
    let journal = Journal::new();
    assert!(journal.accounts.is_empty());
    assert!(journal.commodities.is_empty());
    assert!(journal.xacts.is_empty());
    assert!(journal.posts.is_empty());
}

#[test]
fn same_symbol_gets_the_same_index() {
    let mut journal = Journal::new();
    let eur = journal.add_commodity(Commodity::new("EUR"));
    let usd = journal.add_commodity(Commodity::new("USD"));
    let again = journal.add_commodity(Commodity::new("EUR"));
    let lower = journal.add_commodity(Commodity::new("eur"));
    assert_eq!(0, eur);
    assert_eq!(1, usd);
    assert_eq!(eur, again);
    assert_eq!(2, lower);
    assert_eq!(3, journal.commodities.len());
    assert_eq!("EUR", journal.get_commodity(eur).unwrap().symbol);
    assert_eq!("USD", journal.get_commodity(usd).unwrap().symbol);
    assert_eq!("eur", journal.get_commodity(lower).unwrap().symbol);
    assert_eq!(Some(1), journal.find_commodity("USD"));
    assert_eq!(None, journal.find_commodity("CHF"));
}

#[test]
fn same_name_gets_the_same_account() {
    let mut journal = Journal::new();
    let assets = journal.add_account(Account::new("Assets"));
    let cash = journal.add_account(Account::new("Assets:Cash"));
    let again = journal.add_account(Account::parse("Assets"));
    assert_eq!(0, assets);
    assert_eq!(1, cash);
    assert_eq!(assets, again);
    assert_eq!(2, journal.accounts.len());
    assert_eq!("Assets:Cash", journal.get_account(cash).unwrap().name);
    assert_eq!(Some(1), journal.find_account("Assets:Cash"));
    assert_eq!(None, journal.find_account("Assets:"));
}

#[test]
fn index_that_was_never_handed_out_is_refused() {
    let mut journal = Journal::new();
    journal.add_account(Account::new("Assets"));
    journal.add_commodity(Commodity::new("EUR"));
    journal.add_post(Post::new(0, 0, None, None));
    assert_eq!(Some(LedgerError::IndexNotFound), journal.get_account(1).err());
    assert_eq!(Some(LedgerError::IndexNotFound), journal.get_commodity(1).err());
    assert_eq!(Some(LedgerError::IndexNotFound), journal.get_posts(&[0, 1]).err());
    assert_eq!(1, journal.get_posts(&[0]).unwrap().len());
    assert_eq!(0, journal.get_posts(&[]).unwrap().len());
    assert_eq!(Err(LedgerError::IndexNotFound), finalize_indexed(0, &mut journal));
}

#[test]
fn posts_come_back_in_the_order_asked() {
    let mut journal = Journal::new();
    journal.add_post(Post::new(7, 0, None, None));
    journal.add_post(Post::new(8, 0, None, None));
    journal.add_post(Post::new(9, 0, None, None));
    let posts = journal.get_posts(&[2, 0, 2]).unwrap();
    assert_eq!(vec![9, 7, 9], posts.iter().map(|p| p.account_index).collect::<Vec<_>>());
}

#[test]
fn commodity_of_a_blank_token_is_none() {
    assert!(Commodity::parse("").is_none());
    assert!(Commodity::parse("  \t").is_none());
    assert_eq!("EUR", Commodity::parse("EUR").unwrap().symbol);
    assert_eq!(" A$", Commodity::parse(" A$").unwrap().symbol);
}

#[test]
fn transaction_from_tokens() {
    let xact = Xact::create("2023-05-02", "2023-05-01", "Payee", "Note").unwrap();
    assert_eq!(Some(Date { year: 2023, month: 5, day: 2 }), xact.date);
    assert_eq!(Some(Date { year: 2023, month: 5, day: 1 }), xact.aux_date);
    assert_eq!("Payee", xact.payee);
    assert_eq!(Some("Note".to_string()), xact.note);
    assert!(xact.posts.is_empty());

    let xact = Xact::create("", "", "", "").unwrap();
    assert_eq!(None, xact.date);
    assert_eq!(None, xact.aux_date);
    assert_eq!("Unknown Payee", xact.payee);
    assert_eq!(None, xact.note);

    assert_eq!(Some(LedgerError::MalformedLine), Xact::create("yesterday", "", "P", "").err());
    assert_eq!(Some(LedgerError::MalformedLine), Xact::create("2023-05-02", "soon", "P", "").err());
}

#[test]
fn transaction_from_parts() {
    let date = Date { year: 2020, month: 1, day: 31 };
    let xact = Xact::assemble(Some(date), None, "", "n");
    assert_eq!(Some(date), xact.date);
    assert_eq!("Unknown Payee", xact.payee);
    assert_eq!(Some("n".to_string()), xact.note);

    let xact = Xact::new(None, "payee", None);
    assert_eq!(None, xact.date);
    assert_eq!(None, xact.aux_date);
    assert_eq!("payee", xact.payee);
    assert_eq!(None, xact.note);
}

#[test]
fn date_is_read_by_the_calendar() {
    assert_eq!(Some(Date { year: 2023, month: 12, day: 31 }), Date::parse("2023-12-31"));
    assert_eq!(Some(Date { year: 2023, month: 1, day: 9 }), Date::parse("2023-1-9"));
    assert_eq!(None, Date::parse("2023-04-31"));
    assert_eq!(None, Date::parse("2023-05-01 "));
}

#[test]
fn finalize_indexed_fills_the_elided_posting() {
    let mut journal = Journal::new();
    journal.add_xact(Xact::new(None, "payee", None));
    journal.add_post(Post::new(0, 0, amount(1050, 2, Some(3)), None));
    journal.add_post(Post::new(0, 0, None, None));
    journal.add_post(Post::new(0, 0, amount(5, 1, Some(3)), None));
    journal.add_post(Post::new(0, 0, None, None));
    journal.xacts[0].posts = vec![0, 1, 2];

    finalize_indexed(0, &mut journal).unwrap();

    let filled = journal.posts[1].amount.unwrap();
    assert_eq!((-1100, 2), (filled.quantity.mantissa(), filled.quantity.scale()));
    assert_eq!(Some(3), filled.commodity_index);
    assert_eq!(amount(1050, 2, Some(3)), journal.posts[0].amount);
    assert_eq!(amount(5, 1, Some(3)), journal.posts[2].amount);
    assert_eq!(None, journal.posts[3].amount);
}

#[test]
fn finalize_indexed_refuses_a_posting_that_is_not_there() {
    let mut journal = Journal::new();
    journal.add_xact(Xact::new(None, "payee", None));
    journal.add_post(Post::new(0, 0, None, None));
    journal.xacts[0].posts = vec![0, 5];
    assert_eq!(Err(LedgerError::IndexNotFound), finalize_indexed(0, &mut journal));
    assert_eq!(None, journal.posts[0].amount);
}

#[test]
fn finalize_stores_and_links() {
    let mut journal = Journal::new();
    journal.add_xact(Xact::new(None, "earlier", None));
    journal.add_post(Post::new(0, 0, None, None));
    let xact = Xact::new(None, "payee", None);
    let posts = vec![
        Post::new(10, 11, amount(25, 0, None), None),
        Post::new(20, 11, Some(Amount::null()), None),
    ];

    finalize(xact, posts, &mut journal).unwrap();

    assert_eq!(2, journal.xacts.len());
    assert_eq!("payee", journal.xacts[1].payee);
    assert_eq!(vec![1, 2], journal.xacts[1].posts);
    assert_eq!(3, journal.posts.len());
    assert_eq!(1, journal.posts[1].xact_index);
    assert_eq!(1, journal.posts[2].xact_index);
    assert_eq!(10, journal.posts[1].account_index);
    assert_eq!(20, journal.posts[2].account_index);
    assert_eq!(amount(25, 0, None), journal.posts[1].amount);
    let filled = journal.posts[2].amount.unwrap();
    assert_eq!((-25, 0), (filled.quantity.mantissa(), filled.quantity.scale()));
}

#[test]
fn finalize_reads_an_absent_amount_as_elided_too() {
    let mut journal = Journal::new();
    let posts = vec![Post::new(0, 0, None, None), Post::new(0, 0, amount(3, 0, Some(1)), None)];
    finalize(Xact::new(None, "payee", None), posts, &mut journal).unwrap();
    assert_eq!(amount(-3, 0, Some(1)), journal.posts[0].amount);
}

#[test]
fn finalize_that_fails_changes_nothing() {
    let mut journal = Journal::new();
    let posts = vec![Post::new(0, 0, None, None), Post::new(0, 0, Some(Amount::null()), None)];
    assert_eq!(
        Err(LedgerError::DoubleNullPost),
        finalize(Xact::new(None, "payee", None), posts, &mut journal)
    );
    let posts = vec![
        Post::new(0, 0, amount(1, 0, Some(0)), None),
        Post::new(0, 0, amount(1, 0, Some(1)), None),
    ];
    assert_eq!(
        Err(LedgerError::CommodityMismatch),
        finalize(Xact::new(None, "payee", None), posts, &mut journal)
    );
    assert_eq!(0, journal.xacts.len());
    assert_eq!(0, journal.posts.len());
}

#[test]
fn finalize_indexed_balances_a_sum_at_a_narrower_scale() {
    let mut journal = Journal::new();
    journal.add_xact(Xact::new(None, "payee", None));
    journal.add_post(Post::new(0, 0, amount(50_000_000_000_000_000_000_000_000_000, 0, None), None));
    journal.add_post(Post::new(0, 0, amount(10, 1, None), None));
    journal.add_post(Post::new(0, 0, None, None));
    journal.xacts[0].posts = vec![0, 1, 2];

    finalize_indexed(0, &mut journal).unwrap();

    let filled = journal.posts[2].amount.unwrap();
    assert_eq!(
        (-50_000_000_000_000_000_000_000_000_001, 0),
        (filled.quantity.mantissa(), filled.quantity.scale())
    );
}

#[test]
fn finalize_indexed_takes_explicit_amounts_as_they_are() {
    let mut journal = Journal::new();
    journal.add_xact(Xact::new(None, "payee", None));
    journal.add_post(Post::new(0, 0, amount(50_000_000_000_000_000_000_000_000_000, 0, None), None));
    journal.add_post(Post::new(0, 0, amount(10, 1, None), None));
    journal.xacts[0].posts = vec![0, 1];

    finalize_indexed(0, &mut journal).unwrap();

    assert_eq!(amount(50_000_000_000_000_000_000_000_000_000, 0, None), journal.posts[0].amount);
    assert_eq!(amount(10, 1, None), journal.posts[1].amount);
}

#[test]
fn finalize_indexed_twice_changes_nothing_more() {
    let mut journal = Journal::new();
    journal.add_xact(Xact::new(None, "payee", None));
    journal.add_post(Post::new(0, 0, None, None));
    journal.add_post(Post::new(0, 0, amount(-10, 1, None), None));
    journal.add_post(Post::new(0, 0, amount(7_922_816_251_426_433_759_354_395_034, 0, None), None));
    journal.xacts[0].posts = vec![0, 1, 2];

    finalize_indexed(0, &mut journal).unwrap();
    let first = journal.posts[0].amount.unwrap();
    assert_eq!(
        (-79_228_162_514_264_337_593_543_950_330, 1),
        (first.quantity.mantissa(), first.quantity.scale())
    );

    finalize_indexed(0, &mut journal).unwrap();
    let second = journal.posts[0].amount.unwrap();
    assert_eq!(
        (-79_228_162_514_264_337_593_543_950_330, 1),
        (second.quantity.mantissa(), second.quantity.scale())
    );
    assert_eq!(amount(-10, 1, None), journal.posts[1].amount);
}

#[test]
fn finalize_stores_a_sum_at_a_narrower_scale() {
    let mut journal = Journal::new();
    let posts = vec![
        Post::new(0, 0, amount(50_000_000_000_000_000_000_000_000_000, 0, None), None),
        Post::new(0, 0, amount(10, 1, None), None),
    ];
    finalize(Xact::new(None, "payee", None), posts, &mut journal).unwrap();
    assert_eq!(1, journal.xacts.len());
    assert_eq!(vec![0, 1], journal.xacts[0].posts);
    assert_eq!(amount(10, 1, None), journal.posts[1].amount);

    let posts = vec![
        Post::new(0, 0, amount(50_000_000_000_000_000_000_000_000_000, 0, None), None),
        Post::new(0, 0, amount(10, 1, None), None),
        Post::new(0, 0, Some(Amount::null()), None),
    ];
    finalize(Xact::new(None, "payee", None), posts, &mut journal).unwrap();
    assert_eq!(vec![2, 3, 4], journal.xacts[1].posts);
    let filled = journal.posts[4].amount.unwrap();
    assert_eq!(
        (-50_000_000_000_000_000_000_000_000_001, 0),
        (filled.quantity.mantissa(), filled.quantity.scale())
    );
    assert_eq!(1, journal.posts[4].xact_index);
}
