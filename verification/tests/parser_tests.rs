use ledger_rs_lib::amount::Amount;
use ledger_rs_lib::error::LedgerError;
use ledger_rs_lib::journal::Journal;
use ledger_rs_lib::parser::{classify, parse_date, parse_post, read, LineKind, Parser, State};
use ledger_rs_lib::quantity::Quantity;
use ledger_rs_lib::xact::Xact;

fn dec(mantissa: i128, scale: u32) -> Quantity {
    Quantity::new(mantissa, scale).unwrap()
}

fn setup() -> Journal {
    let mut journal = Journal::new();
    let xact = Xact::create("2023-05-02", "", "Supermarket", "").unwrap();
    journal.add_xact(xact);

    journal
}

#[test]
fn parser_test_minimal_parsing() {
    let input = r#"; Minimal transaction
2023-04-10 Supermarket
    Expenses  20
    Assets
"#;

    let journal = read(input).unwrap();

    assert_eq!(1, journal.xacts.len());

    let xact = journal.xacts.first().unwrap();
    assert_eq!("Supermarket", xact.payee);
    assert_eq!(2, xact.posts.len());

    let post1 = &journal.posts[xact.posts[0]];
    assert_eq!("Expenses", journal.get_account(post1.account_index).unwrap().name);
    assert_eq!("20", post1.amount.as_ref().unwrap().quantity.to_string());
    assert_eq!(None, post1.amount.as_ref().unwrap().commodity_index);

    let post2 = &journal.posts[xact.posts[1]];
    assert_eq!("Assets", journal.get_account(post2.account_index).unwrap().name);
}

#[test]
fn test_minimal_parser() {
    let input = r#"; Minimal transaction
2023-04-10 Supermarket
    Expenses  20
    Assets
"#;

    let journal = read(input).unwrap();

    assert_eq!(1, journal.xacts.len());

    let xact = journal.xacts.first().unwrap();
    assert_eq!("Supermarket", xact.payee);
    assert_eq!(2, xact.posts.len());

    let post1 = &journal.posts[xact.posts[0]];
    assert_eq!("20", post1.amount.as_ref().unwrap().quantity.to_string());
    assert_eq!(None, post1.amount.as_ref().unwrap().commodity_index);

    let post2 = &journal.posts[xact.posts[1]];
    assert_eq!(Some(Amount::new(dec(-20, 0), None)), post2.amount);
    assert_eq!("-20", post2.amount.as_ref().unwrap().quantity.to_string());
}

#[test]
fn parse_standard_xact() {
    let input = r#"; Standard transaction
2023-04-10 Supermarket
    Expenses  20 EUR
    Assets
"#;

    let journal = read(input).unwrap();

    assert_eq!(1, journal.xacts.len());

    if let Some(xact) = journal.xacts.first() {
        assert_eq!("Supermarket", xact.payee);

        let posts = journal.get_posts(&xact.posts).unwrap();
        assert_eq!(2, posts.len());

        let acc1 = journal.get_account(posts[0].account_index).unwrap();
        assert_eq!("Expenses", acc1.name);
        let acc2 = journal.get_account(posts[1].account_index).unwrap();
        assert_eq!("Assets", acc2.name);

        assert_eq!(Some(Amount::new(dec(20, 0), Some(0))), posts[0].amount);
        assert_eq!(Some(Amount::new(dec(-20, 0), Some(0))), posts[1].amount);
        assert_eq!("EUR", journal.get_commodity(0).unwrap().symbol);
    } else {
        assert!(false);
    }
}

#[test]
fn parse_trade_xact() {
    let input = r#"; Standard transaction
2023-04-10 Supermarket
    Assets:Investment  20 VEUR @ 10 EUR
    Assets
"#;

    let journal = read(input).unwrap();

    assert_eq!(2, journal.posts.len());
    assert_eq!(Some(Amount::new(dec(20, 0), Some(0))), journal.posts[0].amount);
    assert_eq!(Some(Amount::new(dec(10, 0), Some(1))), journal.posts[0].cost);
    assert_eq!("VEUR", journal.commodities[0].symbol);
    assert_eq!("EUR", journal.commodities[1].symbol);
    assert_eq!(Some(Amount::new(dec(-20, 0), Some(0))), journal.posts[1].amount);
    assert_eq!(None, journal.posts[1].cost);
}

#[test]
fn test_pos_w_commodity_separated() {
    let expected = Amount { quantity: dec(20, 0), commodity_index: Some(0) };
    let mut journal = setup();

    parse_post("  Assets  20 EUR", 0, &mut journal).unwrap();
    let post = journal.posts.first().unwrap();
    let Some(amount) = &post.amount else { panic!() };

    assert_eq!(expected, *amount);

    let c = journal.get_commodity(amount.commodity_index.unwrap()).unwrap();
    assert_eq!("EUR", c.symbol);
}

#[test]
fn test_neg_commodity_separated() {
    let mut journal = setup();

    parse_post("  Assets  -20 EUR", 0, &mut journal).unwrap();

    let post = journal.posts.first().unwrap();
    let Some(a) = &post.amount else { panic!() };
    let q = a.quantity;
    assert_eq!(dec(-20, 0), q);

    let commodity = journal.get_commodity(a.commodity_index.unwrap()).unwrap();
    assert_eq!("EUR", commodity.symbol);
}

#[test]
fn test_full_w_commodity_separated() {
    let mut journal = setup();

    parse_post("  Assets  -20000.00 EUR", 0, &mut journal).unwrap();
    let post = journal.posts.first().unwrap();
    let Some(ref amount) = post.amount else { panic!() };

    assert_eq!("-20000.00", amount.quantity.to_string());
    assert_eq!("EUR", journal.get_commodity(amount.commodity_index.unwrap()).unwrap().symbol);
}

#[test]
fn test_full_commodity_first() {
    let mut journal = setup();

    parse_post("  Assets  A$-20000.00", 0, &mut journal).unwrap();
    let post = journal.posts.first().unwrap();
    let Some(ref amount) = post.amount else { panic!() };

    assert_eq!("-20000.00", amount.quantity.to_string());
    assert_eq!("A$", journal.get_commodity(amount.commodity_index.unwrap()).unwrap().symbol);
}

#[test]
fn posting_is_linked_both_ways() {
    let mut journal = setup();

    parse_post("  Assets  5 EUR", 0, &mut journal).unwrap();
    parse_post("  Expenses  -5 EUR", 0, &mut journal).unwrap();
    parse_post("  Assets  1 USD", 0, &mut journal).unwrap();

    assert_eq!(vec![0, 1, 2], journal.xacts[0].posts);
    assert_eq!(2, journal.accounts.len());
    assert_eq!(vec![0, 2], journal.accounts[0].post_indices);
    assert_eq!(vec![1], journal.accounts[1].post_indices);
    assert_eq!(0, journal.posts[2].account_index);
    assert_eq!(0, journal.posts[2].xact_index);
    assert_eq!(2, journal.commodities.len());
    assert_eq!(Some(1), journal.posts[2].amount.unwrap().commodity_index);
}

#[test]
fn posting_under_a_missing_transaction_is_refused() {
    let mut journal = Journal::new();
    assert_eq!(Err(LedgerError::IndexNotFound), parse_post("  Assets  5 EUR", 0, &mut journal));
    assert_eq!(0, journal.accounts.len());
    assert_eq!(0, journal.commodities.len());
    assert_eq!(0, journal.posts.len());
}

#[test]
fn lines_are_classified_by_their_start() {
    assert_eq!(LineKind::Blank, classify(""));
    assert_eq!(LineKind::Blank, classify("  \t \r"));
    assert_eq!(LineKind::Comment, classify("; note"));
    assert_eq!(LineKind::Comment, classify("# note"));
    assert_eq!(LineKind::Comment, classify("* note"));
    assert_eq!(LineKind::Comment, classify("| note"));
    assert_eq!(LineKind::OptionDirective, classify("--file x"));
    assert_eq!(LineKind::XactHeader, classify("2023-01-01 Payee"));
    assert_eq!(LineKind::XactHeader, classify("9"));
    assert_eq!(LineKind::PriceDirective, classify("P 2023-01-01 EUR 1.1 USD"));
    assert_eq!(LineKind::Indented, classify("  Assets"));
    assert_eq!(LineKind::Other, classify("\tAssets"));
    assert_eq!(LineKind::Other, classify("account Assets"));
}

#[test]
fn top_level_passes_over_comments_and_directives() {
    let input = "; c\n# c\n* c\n| c\n--option\nP 2023-01-01 EUR 1 USD\n\n   \n";
    let journal = read(input).unwrap();
    assert_eq!(0, journal.xacts.len());
    assert_eq!(0, journal.posts.len());
}

#[test]
fn top_level_refuses_indented_and_unknown_lines() {
    assert_eq!(Some(LedgerError::MalformedLine), read("  Assets  5\n").err());
    assert_eq!(Some(LedgerError::MalformedLine), read("\tAssets  5\n").err());
    assert_eq!(Some(LedgerError::MalformedLine), read("account Assets\n").err());
}

#[test]
fn body_refuses_what_is_neither_indented_nor_blank() {
    assert_eq!(Some(LedgerError::MalformedLine), read("2023-01-01 A\n; comment\n").err());
    assert_eq!(Some(LedgerError::MalformedLine), read("2023-01-01 A\n2023-01-02 B\n").err());
    assert_eq!(Some(LedgerError::MalformedLine), read("2023-01-01 A\n\tAssets  5\n").err());
}

#[test]
fn header_with_a_date_that_is_none_is_refused() {
    assert_eq!(Some(LedgerError::MalformedLine), read("2023-13-01 Payee\n").err());
    assert_eq!(Some(LedgerError::MalformedLine), read("2023-02-30 Payee\n").err());
    assert_eq!(Some(LedgerError::MalformedLine), read("2023-01-01=never Payee\n").err());
    assert_eq!(Some(LedgerError::MalformedLine), read("20230101 Payee\n").err());
}

#[test]
fn second_posting_without_amount_is_refused() {
    let input = "2023-01-01 Payee\n  Expenses  20\n  Assets\n  Liabilities\n";
    assert_eq!(Some(LedgerError::DoubleNullPost), read(input).err());
}

#[test]
fn postings_of_different_commodities_are_refused() {
    let input = "2023-01-01 Payee\n  Expenses  20 EUR\n  Assets  -20 USD\n";
    assert_eq!(Some(LedgerError::CommodityMismatch), read(input).err());
    let input = "2023-01-01 Payee\n  Expenses  20 EUR\n  Assets  -20\n";
    assert_eq!(Some(LedgerError::CommodityMismatch), read(input).err());
}

#[test]
fn total_out_of_range_is_refused() {
    let input = "2023-01-01 Payee\n  A  79228162514264337593543950335\n  B  1\n  C\n";
    assert_eq!(Some(LedgerError::QuantityOverflow), read(input).err());
}

#[test]
fn transaction_without_elided_posting_is_taken_as_it_is() {
    let input = "2023-01-01 Payee\n  Expenses  20 EUR\n  Assets  -15 EUR\n";
    let journal = read(input).unwrap();
    assert_eq!(Some(Amount::new(dec(20, 0), Some(0))), journal.posts[0].amount);
    assert_eq!(Some(Amount::new(dec(-15, 0), Some(0))), journal.posts[1].amount);
}

#[test]
fn elided_posting_may_stand_anywhere() {
    let input = "2023-01-01 Payee\n  A  1.5 EUR\n  B\n  C  2.25 EUR\n";
    let journal = read(input).unwrap();
    let b = journal.posts[1].amount.unwrap();
    assert_eq!(-375, b.quantity.mantissa());
    assert_eq!(2, b.quantity.scale());
    assert_eq!(Some(0), b.commodity_index);
}

#[test]
fn lone_elided_posting_gets_the_null_amount() {
    let journal = read("2023-01-01 Payee\n  Assets\n").unwrap();
    assert!(journal.posts[0].amount.unwrap().is_null());
}

#[test]
fn blank_line_closes_a_transaction() {
    let input = "2023-01-01 First\n  Expenses  20 EUR\n  Assets\n\n2023-01-02 Second\n  Expenses  5 EUR\n  Assets\n";
    let journal = read(input).unwrap();
    assert_eq!(2, journal.xacts.len());
    assert_eq!("First", journal.xacts[0].payee);
    assert_eq!("Second", journal.xacts[1].payee);
    assert_eq!(vec![0, 1], journal.xacts[0].posts);
    assert_eq!(vec![2, 3], journal.xacts[1].posts);
    assert_eq!(2, journal.accounts.len());
    assert_eq!(vec![0, 2], journal.accounts[0].post_indices);
    assert_eq!(vec![1, 3], journal.accounts[1].post_indices);
    assert_eq!(1, journal.commodities.len());
    assert_eq!(Some(Amount::new(dec(-5, 0), Some(0))), journal.posts[3].amount);
}

#[test]
fn end_of_input_closes_a_transaction_without_line_feed() {
    let journal = read("2023-01-01 Payee\n  Expenses  20\n  Assets").unwrap();
    assert_eq!(Some(Amount::new(dec(-20, 0), None)), journal.posts[1].amount);
}

#[test]
fn lines_may_end_with_carriage_return() {
    let journal = read("2023-01-01 Payee\r\n  Expenses  20 EUR\r\n  Assets\r\n\r\n; end\r\n").unwrap();
    assert_eq!("Payee", journal.xacts[0].payee);
    assert_eq!("Assets", journal.accounts[1].name);
    assert_eq!("EUR", journal.commodities[0].symbol);
    assert_eq!(Some(Amount::new(dec(-20, 0), Some(0))), journal.posts[1].amount);
}

#[test]
fn header_fills_the_transaction() {
    let journal = read("2023-05-02=2023-05-01 Payee  ; Note\n").unwrap();
    let xact = &journal.xacts[0];
    assert_eq!(2023, xact.date.unwrap().year);
    assert_eq!(5, xact.date.unwrap().month);
    assert_eq!(2, xact.date.unwrap().day);
    assert_eq!(1, xact.aux_date.unwrap().day);
    assert_eq!("Payee", xact.payee);
    assert_eq!(Some("Note".to_string()), xact.note);
}

#[test]
fn header_without_payee_gets_the_unknown_payee() {
    let journal = read("2023-05-02\n").unwrap();
    assert_eq!("Unknown Payee", journal.xacts[0].payee);
    assert_eq!(None, journal.xacts[0].note);
    assert_eq!(None, journal.xacts[0].aux_date);
}

#[test]
fn note_lines_are_attached_to_the_transaction() {
    let input = "2023-01-01 Payee\n  ; first\n  Expenses  20\n    ;second \n  Assets\n";
    let journal = read(input).unwrap();
    assert_eq!(Some("first\nsecond".to_string()), journal.xacts[0].note);
    assert_eq!(2, journal.posts.len());
    let input = "2023-01-01 Payee  ; head\n  ; more\n";
    let journal = read(input).unwrap();
    assert_eq!(Some("head\nmore".to_string()), journal.xacts[0].note);
}

#[test]
fn parser_is_fed_line_by_line() {
    let mut parser = Parser::new();
    assert_eq!(State::TopLevel, parser.state);
    parser.read_next_directive("; comment").unwrap();
    assert_eq!(State::TopLevel, parser.state);
    parser.read_next_directive("2023-04-10 Supermarket").unwrap();
    assert_eq!(State::InTransactionBody(0), parser.state);
    parser.read_next_directive("    Expenses  20").unwrap();
    parser.read_next_directive("    Assets").unwrap();
    assert_eq!(State::InTransactionBody(0), parser.state);
    assert_eq!(None, parser.journal.posts[1].amount);
    parser.read_next_directive("").unwrap();
    assert_eq!(State::TopLevel, parser.state);
    assert_eq!(Some(Amount::new(dec(-20, 0), None)), parser.journal.posts[1].amount);
    parser.finish().unwrap();
    assert_eq!(State::TopLevel, parser.state);
}

#[test]
fn line_that_is_refused_changes_nothing() {
    let mut parser = Parser::new();
    parser.read_next_directive("2023-04-10 Supermarket").unwrap();
    parser.read_next_directive("    Expenses  20").unwrap();
    assert_eq!(Err(LedgerError::MalformedLine), parser.read_next_directive("oops"));
    assert_eq!(State::InTransactionBody(0), parser.state);
    assert_eq!(1, parser.journal.posts.len());
    parser.read_next_directive("    Assets").unwrap();
    parser.read_next_directive("    Liabilities").unwrap();
    assert_eq!(Err(LedgerError::DoubleNullPost), parser.finish());
    assert_eq!(State::InTransactionBody(0), parser.state);
    assert_eq!(None, parser.journal.posts[1].amount);
}

#[test]
fn parse_stops_at_the_first_error() {
    let mut parser = Parser::new();
    let input = "2023-01-01 First\n  Expenses  20\n  Assets\n\nnonsense\n2023-01-02 Second\n";
    assert_eq!(Err(LedgerError::MalformedLine), parser.parse(input));
    assert_eq!(1, parser.journal.xacts.len());
    assert_eq!(State::TopLevel, parser.state);
    assert_eq!(Some(Amount::new(dec(-20, 0), None)), parser.journal.posts[1].amount);
}

#[test]
fn header_directive_opens_a_transaction() {
    let mut parser = Parser::new();
    assert_eq!(Err(LedgerError::MalformedLine), parser.xact_directive("not-a-date Payee"));
    assert_eq!(0, parser.journal.xacts.len());
    parser.xact_directive("2023-05-01 Payee").unwrap();
    assert_eq!(State::InTransactionBody(0), parser.state);
    assert_eq!("Payee", parser.journal.xacts[0].payee);
}

#[test]
fn dates_are_read() {
    let date = parse_date("2023-05-01").unwrap();
    assert_eq!((2023, 5, 1), (date.year, date.month, date.day));
    let date = parse_date("2024-02-29").unwrap();
    assert_eq!((2024, 2, 29), (date.year, date.month, date.day));
    assert_eq!(None, parse_date("2023-02-29"));
    assert_eq!(None, parse_date(""));
    assert_eq!(None, parse_date("01/05/2023"));
}

#[test]
fn text_beyond_ascii_is_read_by_characters() {
    let input = "; Caf\u{e9}\n2023-01-01 Caf\u{e9} M\u{fc}ller  ; s\u{fc}\u{df}\n  Ausgaben:Essen  20 \u{20ac}\n  Verm\u{f6}gen\n";
    let journal = read(input).unwrap();
    assert_eq!("Caf\u{e9} M\u{fc}ller", journal.xacts[0].payee);
    assert_eq!(Some("s\u{fc}\u{df}".to_string()), journal.xacts[0].note);
    assert_eq!("Ausgaben:Essen", journal.accounts[0].name);
    assert_eq!("Verm\u{f6}gen", journal.accounts[1].name);
    assert_eq!("\u{20ac}", journal.commodities[0].symbol);
    assert_eq!(Some(Amount::new(dec(-20, 0), Some(0))), journal.posts[1].amount);
}

#[test]
fn total_that_is_exact_at_a_narrower_scale_is_taken() {
    let input = "2023-01-01 Payee\n  A  50000000000000000000000000000\n  B  1.0\n  C\n";
    let journal = read(input).unwrap();
    assert_eq!("-50000000000000000000000000001", journal.posts[2].amount.unwrap().quantity.to_string());
    let input = "2023-01-01 Payee\n  A  50000000000000000000000000000\n  B  1.1\n  C\n";
    assert_eq!(Some(LedgerError::QuantityOverflow), read(input).err());
}
