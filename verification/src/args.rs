//! Deciding what a command line asks for, from the already-classified
//! tokens. Reading the process's real arguments, and printing usage, stay
//! with the caller.

use vstd::prelude::*;

verus! {

/// One command-line token, as the option parser classifies it.
pub enum ArgEvent {
    /// The `-i` flag: search case-insensitively.
    CaseInsensitive,
    /// The `-h` or `--help` flag.
    Help,
    /// A positional value.
    Value(String),
    /// Anything else, with its rendering for the error message.
    Other(String),
}

/// The parsed command line.
pub struct Args {
    pub query: String,
    pub file_path: String,
    pub case_insensitive: bool,
}

/// What the command line asks for.
pub enum ParsedArgs {
    /// Print usage and exit successfully, at once.
    Help,
    /// Search as the arguments say.
    Run(Args),
}

/// Why the command line was rejected.
pub enum ArgError {
    /// No positional value was given for the search query.
    MissingQuery,
    /// No positional value was given for the file path.
    MissingFilePath,
    /// An unknown option, or a positional value past the second.
    Unexpected(String),
}

/// The outcome of processing the remaining tokens in order, given the
/// query, file path and flag accumulated so far.
pub enum ParseOutcome {
    Help,
    Run(Seq<char>, Seq<char>, bool),
    MissingQuery,
    MissingFilePath,
    Unexpected(Seq<char>),
}

/// Processing tokens in order: `-i` turns the flag on; the first two
/// positional values fill the query and then the file path; help ends
/// processing at once; a third value or an unknown option is rejected at
/// once; a missing query or file path is found only once every token has
/// been read.
pub open spec fn parse_spec(
    events: Seq<ArgEvent>,
    query: Option<Seq<char>>,
    file_path: Option<Seq<char>>,
    case_insensitive: bool,
) -> ParseOutcome
    decreases events.len(),
{
    if events.len() == 0 {
        match query {
            Option::None => ParseOutcome::MissingQuery,
            Option::Some(q) => match file_path {
                Option::None => ParseOutcome::MissingFilePath,
                Option::Some(f) => ParseOutcome::Run(q, f, case_insensitive),
            },
        }
    } else {
        match events.first() {
            ArgEvent::CaseInsensitive => parse_spec(events.drop_first(), query, file_path, true),
            ArgEvent::Help => ParseOutcome::Help,
            ArgEvent::Value(s) => if query is None {
                parse_spec(events.drop_first(), Some(s@), file_path, case_insensitive)
            } else if file_path is None {
                parse_spec(events.drop_first(), query, Some(s@), case_insensitive)
            } else {
                ParseOutcome::Unexpected(s@)
            },
            ArgEvent::Other(s) => ParseOutcome::Unexpected(s@),
        }
    }
}

/// The view of an accumulated optional value.
pub open spec fn opt_view(o: Option<String>) -> Option<Seq<char>> {
    match o {
        Option::None => Option::None,
        Option::Some(s) => Option::Some(s@),
    }
}

/// Decides what the classified command-line tokens ask for, exactly as
/// `parse_spec` says.
pub fn parse_args(events: &Vec<ArgEvent>) -> (r: Result<ParsedArgs, ArgError>)
    ensures
        ({
            let o = parse_spec(events@, Option::None, Option::None, false);
            match r {
                Ok(p) => match p {
                    ParsedArgs::Help => o is Help,
                    ParsedArgs::Run(a) => o matches ParseOutcome::Run(q, f, ci) && a.query@ == q
                        && a.file_path@ == f && a.case_insensitive == ci,
                },
                Err(e) => match e {
                    ArgError::MissingQuery => o is MissingQuery,
                    ArgError::MissingFilePath => o is MissingFilePath,
                    ArgError::Unexpected(s) => o matches ParseOutcome::Unexpected(t) && s@ == t,
                },
            }
        }),
{
    let ghost o = parse_spec(events@, Option::None, Option::None, false);
    let mut query: Option<String> = None;
    let mut file_path: Option<String> = None;
    let mut case_insensitive: bool = false;
    let n = events.len();
    let mut k: usize = 0;
    proof {
        assert(events@.skip(0) =~= events@);
    }
    while k < n
        invariant
            0 <= k <= n,
            n == events@.len(),
            o == parse_spec(events@, Option::None, Option::None, false),
            o == parse_spec(events@.skip(k as int), opt_view(query), opt_view(file_path), case_insensitive),
        decreases n - k,
    {
        proof {
            assert(events@.skip(k as int).first() == events@[k as int]);
            assert(events@.skip(k as int).drop_first() =~= events@.skip(k + 1));
        }
        match &events[k] {
            ArgEvent::CaseInsensitive => {
                case_insensitive = true;
            },
            ArgEvent::Help => {
                return Ok(ParsedArgs::Help);
            },
            ArgEvent::Value(s) => {
                if query.is_none() {
                    query = Some(s.clone());
                } else if file_path.is_none() {
                    file_path = Some(s.clone());
                } else {
                    return Err(ArgError::Unexpected(s.clone()));
                }
            },
            ArgEvent::Other(s) => {
                return Err(ArgError::Unexpected(s.clone()));
            },
        }
        k += 1;
    }
    proof {
        assert(events@.skip(n as int) =~= Seq::<ArgEvent>::empty());
    }
    match query {
        None => Err(ArgError::MissingQuery),
        Some(q) => match file_path {
            None => Err(ArgError::MissingFilePath),
            Some(f) => Ok(
                ParsedArgs::Run(Args { query: q, file_path: f, case_insensitive }),
            ),
        },
    }
}

} // verus!
