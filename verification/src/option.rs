//! Command-line arguments: commands, and options with their values.

use vstd::prelude::*;
use vstd::string::StringExecFns;
use crate::text::chars_of;

verus! {

/// Why a list of arguments was refused.
#[derive(Clone, Copy, Debug, PartialEq, Eq, Structural)]
pub enum OptionError {
    /// An argument that starts with `--`: long options are not known.
    LongOption,
    /// An option without a value after it.
    MissingValue,
}

/// Whether an argument is an option: it starts with `-`.
pub open spec fn is_option(arg: Seq<char>) -> bool {
    arg.len() > 0 && arg[0] == '-'
}

/// Whether an argument is a long option: it starts with `--`.
pub open spec fn is_long_option(arg: Seq<char>) -> bool {
    arg.len() > 1 && arg[0] == '-' && arg[1] == '-'
}

/// The options that an argument such as `-ab` stands for, each with its
/// value from `values`: `-a`, the first value, `-b`, the second, and so
/// on for the first `count` letters.
pub open spec fn paired(arg: Seq<char>, values: Seq<Seq<char>>, count: int) -> Seq<Seq<char>>
    decreases count,
{
    if count <= 0 {
        Seq::empty()
    } else {
        paired(arg, values, count - 1).push(seq!['-', arg[count]]).push(values[count - 1])
    }
}

/// The commands and the options of the arguments from `at` on. An
/// argument that is no option is a command. An option of `n` letters
/// takes the `n` arguments after it as the values of its letters.
pub open spec fn processed_from(args: Seq<Seq<char>>, at: int) -> Result<
    (Seq<Seq<char>>, Seq<Seq<char>>),
    OptionError,
>
    decreases args.len() - at,
{
    if at < 0 || at >= args.len() {
        Ok((Seq::empty(), Seq::empty()))
    } else if !is_option(args[at]) {
        match processed_from(args, at + 1) {
            Ok(rest) => Ok((seq![args[at]] + rest.0, rest.1)),
            Err(e) => Err(e),
        }
    } else if is_long_option(args[at]) {
        Err(OptionError::LongOption)
    } else if at + args[at].len() > args.len() {
        Err(OptionError::MissingValue)
    } else {
        let letters = args[at].len() - 1;
        match processed_from(args, at + 1 + letters) {
            Ok(rest) => Ok(
                (
                    rest.0,
                    paired(args[at], args.subrange(at + 1, at + 1 + letters), letters) + rest.1,
                ),
            ),
            Err(e) => Err(e),
        }
    }
}

/// The texts of a list of strings.
pub open spec fn texts(strings: Seq<String>) -> Seq<Seq<char>> {
    strings.map_values(|s: String| s@)
}

/// `String::push`: the character is appended.
#[verifier::external_body]
fn push_char(s: &mut String, c: char)
    ensures
        final(s)@ == old(s)@.push(c),
{
    s.push(c);
}

/// Whether the arguments can be processed: none is a long option, and
/// every option letter has its value.
pub open spec fn can_process(args: Seq<Seq<char>>) -> bool {
    processed_from(args, 0) is Ok
}

/// Tests whether the arguments can be processed, and says why not.
pub fn check_arguments(args: &Vec<String>) -> (res: Result<(), OptionError>)
    ensures
        match processed_from(texts(args@), 0) {
            Ok(r) => res is Ok,
            Err(e) => res == Err::<(), OptionError>(e),
        },
        res is Ok <==> can_process(texts(args@)),
{
    match split(args) {
        Ok(found) => Ok(()),
        Err(e) => Err(e),
    }
}

/// Splits command-line arguments into commands and options. The options
/// come back as a flat list of letters and values: `-f`, its value, and
/// so on. The arguments hold no long option, and each option letter has
/// its value: `check_arguments` tells.
pub fn process_arguments(args: Vec<String>) -> (res: (Vec<String>, Vec<String>))
    requires
        can_process(texts(args@)),
    ensures
        Ok::<(Seq<Seq<char>>, Seq<Seq<char>>), OptionError>((texts(res.0@), texts(res.1@)))
            == processed_from(texts(args@), 0),
{
    match split(&args) {
        Ok(found) => found,
        Err(e) => vstd::pervasive::unreached(),
    }
}

/// Splits arguments into commands and options, or says why it cannot.
fn split(args: &Vec<String>) -> (res: Result<(Vec<String>, Vec<String>), OptionError>)
    ensures
        match processed_from(texts(args@), 0) {
            Ok(r) => res matches Ok(found) && texts(found.0@) == r.0 && texts(found.1@) == r.1,
            Err(e) => res matches Err(r) && r == e,
        },
{
    let ghost all = texts(args@);
    let mut commands: Vec<String> = Vec::new();
    let mut options: Vec<String> = Vec::new();
    let mut i: usize = 0;
    while i < args.len()
        invariant
            0 <= i <= args.len(),
            all == texts(args@),
            processed_from(all, 0) == match processed_from(all, i as int) {
                Ok(rest) => Ok::<(Seq<Seq<char>>, Seq<Seq<char>>), OptionError>(
                    (texts(commands@) + rest.0, texts(options@) + rest.1),
                ),
                Err(e) => Err(e),
            },
        decreases args.len() - i,
    {
        let arg = chars_of(args[i].as_str());
        assert(arg@ == all[i as int]);
        if arg.len() == 0 || arg[0] != '-' {
            let ghost before = texts(commands@);
            commands.push(args[i].clone());
            proof {
                assert(texts(commands@) =~= before.push(all[i as int]));
                match processed_from(all, i + 1) {
                    Ok(rest) => {
                        assert(before + (seq![all[i as int]] + rest.0) =~= texts(commands@)
                            + rest.0);
                    },
                    Err(e) => {},
                }
            }
            i = i + 1;
        } else if arg.len() > 1 && arg[1] == '-' {
            return Err(OptionError::LongOption);
        } else {
            let letters = arg.len() - 1;
            if letters > args.len() - i - 1 {
                return Err(OptionError::MissingValue);
            }
            let ghost before = texts(options@);
            let ghost values = all.subrange(i + 1, i + 1 + letters);
            let mut k: usize = 0;
            while k < letters
                invariant
                    0 <= k <= letters,
                    letters == arg.len() - 1,
                    i + 1 + letters <= args.len(),
                    all == texts(args@),
                    values == all.subrange(i + 1, i + 1 + letters),
                    texts(options@) == before + paired(arg@, values, k as int),
                decreases letters - k,
            {
                let mut option = String::from_str("-");
                proof {
                    reveal_strlit("-");
                }
                push_char(&mut option, arg[k + 1]);
                let ghost so_far = texts(options@);
                options.push(option);
                options.push(args[i + 1 + k].clone());
                proof {
                    assert(option@ =~= seq!['-', arg@[k + 1]]);
                    assert(values[k as int] == all[i + 1 + k]);
                    assert(texts(options@) =~= so_far.push(option@).push(values[k as int]));
                    assert(before + paired(arg@, values, k + 1) =~= texts(options@));
                }
                k = k + 1;
            }
            proof {
                match processed_from(all, i + 1 + letters) {
                    Ok(rest) => {
                        assert(before + (paired(arg@, values, letters as int) + rest.1)
                            =~= texts(options@) + rest.1);
                    },
                    Err(e) => {},
                }
            }
            i = i + 1 + letters;
        }
    }
    proof {
        assert(texts(commands@) + Seq::<Seq<char>>::empty() =~= texts(commands@));
        assert(texts(options@) + Seq::<Seq<char>>::empty() =~= texts(options@));
    }
    Ok((commands, options))
}

} // verus!
