use ledger_rs_lib::option::{check_arguments, process_arguments, OptionError};
use shell_words::split;

#[test]
fn test_process_arguments() {
    let args = split("accounts -f basic.ledger").unwrap();

    let (commands, options) = process_arguments(args);

    assert_eq!(1, commands.len());
    assert_eq!("accounts", commands[0]);

    assert_eq!(2, options.len());
    assert_eq!("-f", options[0]);
    assert_eq!("basic.ledger", options[1]);
}

#[test]
fn test_process_multiple_arguments() {
    let args = split("cmd -ab value_a value_b").unwrap();

    let (commands, options) = process_arguments(args);

    assert_eq!(1, commands.len());
    assert_eq!("cmd", commands[0]);

    assert_eq!(4, options.len());

    assert_eq!("-a", options[0]);
    assert_eq!("value_a", options[1]);

    assert_eq!("-b", options[2]);
    assert_eq!("value_b", options[3]);
}

#[test]
fn test_multiple_commands() {
    let args: Vec<String> = shell_words::split("accounts b -f tests/minimal.ledger").unwrap();

    let (commands, _options) = process_arguments(args);

    assert_eq!(2, commands.len());
    assert_eq!("accounts", commands[0]);
    assert_eq!("b", commands[1]);
}

fn strings(args: &[&str]) -> Vec<String> {
    args.iter().map(|a| a.to_string()).collect()
}

#[test]
fn no_arguments() {
    assert_eq!(Ok(()), check_arguments(&vec![]));
    assert_eq!((vec![], vec![]), process_arguments(vec![]));
}

#[test]
fn long_option_is_refused() {
    assert_eq!(Err(OptionError::LongOption), check_arguments(&strings(&["b", "--file", "x"])));
    assert_eq!(Err(OptionError::LongOption), check_arguments(&strings(&["--"])));
}

#[test]
fn option_without_value_is_refused() {
    assert_eq!(Err(OptionError::MissingValue), check_arguments(&strings(&["-f"])));
    assert_eq!(Err(OptionError::MissingValue), check_arguments(&strings(&["b", "-f"])));
    assert_eq!(Err(OptionError::MissingValue), check_arguments(&strings(&["-ab", "x"])));
}

#[test]
fn first_refusal_is_told() {
    assert_eq!(Err(OptionError::MissingValue), check_arguments(&strings(&["-abc", "--x", "y"])));
    assert_eq!(Err(OptionError::LongOption), check_arguments(&strings(&["--x", "-f"])));
}

#[test]
fn value_may_look_like_an_option() {
    let args = strings(&["-f", "--x", "b", "-g", "-"]);
    assert_eq!(Ok(()), check_arguments(&args));
    assert_eq!((strings(&["b"]), strings(&["-f", "--x", "-g", "-"])), process_arguments(args));
}

#[test]
fn lone_hyphen_and_empty_argument() {
    let args = strings(&["-", "", "x"]);
    assert_eq!(Ok(()), check_arguments(&args));
    assert_eq!((strings(&["", "x"]), vec![]), process_arguments(args));
}

#[test]
fn option_letters_beyond_ascii() {
    let args = strings(&["-\u{e9}\u{20ac}", "1", "2"]);
    assert_eq!(Ok(()), check_arguments(&args));
    assert_eq!((vec![], strings(&["-\u{e9}", "1", "-\u{20ac}", "2"])), process_arguments(args));
}
