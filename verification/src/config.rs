//! Parsing of the already-tokenized command line into a start or clear-cache
//! command. Printing and process exit stay with the caller; every outcome,
//! help included, is reported as a value.

use vstd::prelude::*;
use vstd::string::StrSliceExecFns;

verus! {

/// Mathematical model of a command.
pub ghost enum CommandModel {
    Start { port: u16, origin: Seq<char> },
    ClearCache,
}

/// What the process was asked to do.
#[derive(Debug)]
pub enum Command {
    Start { port: u16, origin: String },
    ClearCache,
}

impl View for Command {
    type V = CommandModel;

    open spec fn view(&self) -> CommandModel {
        match self {
            Command::Start { port, origin } => CommandModel::Start {
                port: *port,
                origin: origin@,
            },
            Command::ClearCache => CommandModel::ClearCache,
        }
    }
}

/// The parsed command line.
#[derive(Debug)]
pub struct Config {
    pub command: Command,
}

/// Mathematical model of a parse failure.
pub ghost enum ArgsErrorModel {
    MissingPortValue,
    InvalidPort,
    MissingOriginValue,
    MissingOrigin,
    HelpRequested,
    UnknownArgument(Seq<char>),
}

/// Why the command line could not be parsed, or that help was asked for.
#[derive(Debug, PartialEq, Eq)]
pub enum ArgsError {
    /// A port flag came last, with no value after it.
    MissingPortValue,
    /// The port value is not a decimal number within range.
    InvalidPort,
    /// An origin flag came last, with no value after it.
    MissingOriginValue,
    /// A start command needs a non-empty origin.
    MissingOrigin,
    /// A help flag was given.
    HelpRequested,
    /// A flag that is none of the known ones.
    UnknownArgument(String),
}

impl View for ArgsError {
    type V = ArgsErrorModel;

    open spec fn view(&self) -> ArgsErrorModel {
        match self {
            ArgsError::MissingPortValue => ArgsErrorModel::MissingPortValue,
            ArgsError::InvalidPort => ArgsErrorModel::InvalidPort,
            ArgsError::MissingOriginValue => ArgsErrorModel::MissingOriginValue,
            ArgsError::MissingOrigin => ArgsErrorModel::MissingOrigin,
            ArgsError::HelpRequested => ArgsErrorModel::HelpRequested,
            ArgsError::UnknownArgument(s) => ArgsErrorModel::UnknownArgument(s@),
        }
    }
}

/// A decimal digit, by code point.
pub open spec fn is_dec_digit(c: char) -> bool {
    48 <= c as int && c as int <= 57
}

/// The numeric value of a decimal digit.
pub open spec fn digit_value(c: char) -> int {
    c as int - 48
}

/// Every character of the sequence is a decimal digit.
pub open spec fn all_digits(s: Seq<char>) -> bool {
    forall|i: int| 0 <= i < s.len() ==> is_dec_digit(#[trigger] s[i])
}

/// The number that a digit sequence denotes in base ten.
pub open spec fn dec_value(s: Seq<char>) -> int
    decreases s.len(),
{
    if s.len() == 0 {
        0
    } else {
        dec_value(s.drop_last()) * 10 + digit_value(s.last())
    }
}

/// What parsing a port number yields: the denoted value for a non-empty
/// all-digit string that fits in sixteen bits, nothing otherwise.
pub open spec fn spec_parse_u16(s: Seq<char>) -> Option<u16> {
    if s.len() > 0 && all_digits(s) && dec_value(s) <= u16::MAX {
        Some(dec_value(s) as u16)
    } else {
        None
    }
}

proof fn lemma_dec_value_nonneg(s: Seq<char>)
    requires
        all_digits(s),
    ensures
        dec_value(s) >= 0,
    decreases s.len(),
{
    if s.len() > 0 {
        assert(all_digits(s.drop_last())) by {
            assert(forall|i: int|
                0 <= i < s.len() - 1 ==> s.drop_last()[i] == #[trigger] s[i]);
        }
        lemma_dec_value_nonneg(s.drop_last());
    }
}

proof fn lemma_dec_value_prefix(s: Seq<char>, k: int)
    requires
        all_digits(s),
        0 <= k <= s.len(),
    ensures
        dec_value(s) >= dec_value(s.subrange(0, k)),
    decreases s.len() - k,
{
    if k == s.len() {
        assert(s.subrange(0, k) =~= s);
    } else {
        let p = s.subrange(0, k);
        let q = s.subrange(0, k + 1);
        assert(q.drop_last() =~= p);
        assert(q.last() == s[k]);
        assert(all_digits(p)) by {
            assert(forall|i: int| 0 <= i < k ==> p[i] == #[trigger] s[i]);
        }
        lemma_dec_value_nonneg(p);
        assert(dec_value(q) == dec_value(p) * 10 + digit_value(s[k]));
        assert(dec_value(q) >= dec_value(p));
        lemma_dec_value_prefix(s, k + 1);
    }
}

/// Parses a base-ten port number; digits only, at most 65535.
pub fn parse_u16(s: &str) -> (r: Option<u16>)
    ensures
        r == spec_parse_u16(s@),
{
    let n = s.unicode_len();
    if n == 0 {
        return None;
    }
    let mut val: u32 = 0;
    let mut i: usize = 0;
    while i < n
        invariant
            n == s@.len(),
            0 < n,
            i <= n,
            all_digits(s@.subrange(0, i as int)),
            val == dec_value(s@.subrange(0, i as int)),
            val <= 65535,
        decreases n - i,
    {
        let c = s.get_char(i);
        let u: u32 = c as u32;
        if u < 48 || u > 57 {
            return None;
        }
        let d: u32 = u - 48;
        let wide: u64 = (val as u64) * 10 + (d as u64);
        proof {
            assert(s@.subrange(0, (i + 1) as int).drop_last() =~= s@.subrange(0, i as int));
            assert(s@.subrange(0, (i + 1) as int).last() == s@[i as int]);
        }
        if wide > 65535 {
            proof {
                if all_digits(s@) {
                    lemma_dec_value_prefix(s@, i + 1);
                }
            }
            return None;
        }
        val = wide as u32;
        i += 1;
    }
    proof {
        assert(s@.subrange(0, n as int) =~= s@);
    }
    Some(val as u16)
}

/// The running state of the flag walk: the latest port and origin seen, and
/// whether a clear was asked for.
pub ghost struct ParseState {
    pub port: u16,
    pub origin: Seq<char>,
    pub clear: bool,
}

/// What walking the flags from position `i` onward yields: the final state,
/// or the first failure. Later occurrences of a flag override earlier ones.
pub open spec fn spec_parse_from(args: Seq<String>, i: int, st: ParseState) -> Result<
    ParseState,
    ArgsErrorModel,
>
    decreases args.len() - i,
{
    if i < 0 || i >= args.len() {
        Ok(st)
    } else {
        let a = args[i]@;
        if a == "--port"@ || a == "-p"@ {
            if i + 1 >= args.len() {
                Err(ArgsErrorModel::MissingPortValue)
            } else {
                match spec_parse_u16(args[i + 1]@) {
                    Some(p) => spec_parse_from(
                        args,
                        i + 2,
                        ParseState { port: p, ..st },
                    ),
                    None => Err(ArgsErrorModel::InvalidPort),
                }
            }
        } else if a == "--origin"@ || a == "-o"@ {
            if i + 1 >= args.len() {
                Err(ArgsErrorModel::MissingOriginValue)
            } else {
                spec_parse_from(args, i + 2, ParseState { origin: args[i + 1]@, ..st })
            }
        } else if a == "--clear-cache"@ {
            spec_parse_from(args, i + 1, ParseState { clear: true, ..st })
        } else if a == "--help"@ || a == "-h"@ {
            Err(ArgsErrorModel::HelpRequested)
        } else {
            Err(ArgsErrorModel::UnknownArgument(a))
        }
    }
}

/// What parsing the whole command line yields. The first element is the
/// program name and is skipped; a clear wins over a start; a start without
/// an origin is refused.
pub open spec fn spec_parse_args(args: Seq<String>) -> Result<CommandModel, ArgsErrorModel> {
    match spec_parse_from(
        args,
        1,
        ParseState { port: 3000, origin: Seq::empty(), clear: false },
    ) {
        Err(e) => Err(e),
        Ok(st) => if st.clear {
            Ok(CommandModel::ClearCache)
        } else if st.origin.len() == 0 {
            Err(ArgsErrorModel::MissingOrigin)
        } else {
            Ok(CommandModel::Start { port: st.port, origin: st.origin })
        },
    }
}

impl Config {
    /// Parses the tokenized command line, program name first.
    #[verifier::loop_isolation(false)]
    pub fn parse_args(args: &Vec<String>) -> (r: Result<Config, ArgsError>)
        ensures
            match r {
                Ok(c) => spec_parse_args(args@) == Ok::<CommandModel, ArgsErrorModel>(c.command@),
                Err(e) => spec_parse_args(args@) == Err::<CommandModel, ArgsErrorModel>(e@),
            },
    {
        let flag_port_long: String = "--port".to_owned();
        let flag_port_short: String = "-p".to_owned();
        let flag_origin_long: String = "--origin".to_owned();
        let flag_origin_short: String = "-o".to_owned();
        let flag_clear: String = "--clear-cache".to_owned();
        let flag_help_long: String = "--help".to_owned();
        let flag_help_short: String = "-h".to_owned();

        let mut port: u16 = 3000;
        let mut origin: String = String::new();
        let mut clear_cache: bool = false;
        let mut i: usize = 1;
        let ghost init = ParseState { port: 3000, origin: Seq::empty(), clear: false };
        while i < args.len()
            invariant
                1 <= i <= args@.len() || args@.len() < 1,
                spec_parse_from(
                    args@,
                    i as int,
                    ParseState { port: port, origin: origin@, clear: clear_cache },
                ) == spec_parse_from(args@, 1, init),
            decreases args@.len() - i,
        {
            let arg = &args[i];
            if *arg == flag_port_long || *arg == flag_port_short {
                if i + 1 >= args.len() {
                    return Err(ArgsError::MissingPortValue);
                }
                match parse_u16(args[i + 1].as_str()) {
                    Some(p) => {
                        port = p;
                        i += 2;
                    },
                    None => {
                        return Err(ArgsError::InvalidPort);
                    },
                }
            } else if *arg == flag_origin_long || *arg == flag_origin_short {
                if i + 1 >= args.len() {
                    return Err(ArgsError::MissingOriginValue);
                }
                origin = args[i + 1].clone();
                i += 2;
            } else if *arg == flag_clear {
                clear_cache = true;
                i += 1;
            } else if *arg == flag_help_long || *arg == flag_help_short {
                return Err(ArgsError::HelpRequested);
            } else {
                return Err(ArgsError::UnknownArgument(arg.clone()));
            }
        }
        if clear_cache {
            Ok(Config { command: Command::ClearCache })
        } else if origin.as_str().is_empty() {
            Err(ArgsError::MissingOrigin)
        } else {
            Ok(Config { command: Command::Start { port, origin } })
        }
    }
}

} // verus!
