//! The command line, read with the `getopts` crate.
//!
//! `getopts` does the matching; nothing of it is proved here. What it makes
//! of a command line depends on the options and the arguments alone, so it
//! has a name, `getopts_matches`, and so has the usage text that it writes,
//! `getopts_usage`. The verified code in this module hands the options of
//! the tool to `getopts` and says, over those names, what becomes of the
//! answer.

use getopts::Options;
use vstd::prelude::*;
use vstd::string::StringSliceAdditionalSpecFns;
use vstd::utf8::{is_ascii_chars, is_ascii_chars_encode_utf8};

verus! {

/// What `getopts` makes of a command line with one flag and one option that
/// takes a value: whether the flag was given, the value of the option if it
/// was given one and the arguments that belong to no option; or else the
/// reason why the arguments do not fit.
pub type Matching = Result<(bool, Option<String>, Vec<String>), String>;

/// A `Matching` with its texts as sequences of characters.
pub type MatchingView = Result<(bool, Option<Seq<char>>, Seq<Seq<char>>), Seq<char>>;

/// An optional text as an optional sequence of characters.
pub open spec fn text_view(text: Option<String>) -> Option<Seq<char>> {
    match text {
        Some(t) => Some(t@),
        None => None,
    }
}

/// The view of a `Matching`.
pub open spec fn matching_view(matching: Matching) -> MatchingView {
    match matching {
        Ok((flag, value, free)) => Ok((flag, text_view(value), free.deep_view())),
        Err(why) => Err(why@),
    }
}

/// What `Options::parse` of `getopts` makes of the arguments `args`, where
/// the options are a flag with the names `flag_short` and `flag_long` and
/// an option with the names `option_short` and `option_long` that takes a
/// value: `Ok` of whether the flag was given, of the value of the option if
/// it was given one and of the free arguments, or `Err` of the reason, as
/// `getopts` words it, why the arguments do not fit.
pub uninterp spec fn getopts_matches(
    flag_short: Seq<char>,
    flag_long: Seq<char>,
    flag_desc: Seq<char>,
    option_short: Seq<char>,
    option_long: Seq<char>,
    option_desc: Seq<char>,
    option_hint: Seq<char>,
    args: Seq<Seq<char>>,
) -> Result<(bool, Option<Seq<char>>, Seq<Seq<char>>), Seq<char>>;

/// The text that `Options::usage` of `getopts` writes under the line
/// `brief` for the same flag and option.
pub uninterp spec fn getopts_usage(
    brief: Seq<char>,
    flag_short: Seq<char>,
    flag_long: Seq<char>,
    flag_desc: Seq<char>,
    option_short: Seq<char>,
    option_long: Seq<char>,
    option_desc: Seq<char>,
    option_hint: Seq<char>,
) -> Seq<char>;

/// What the usage text holds between the caller's line and the options.
pub open spec fn usage_heading() -> Seq<char> {
    seq!['\n', '\n', 'O', 'p', 't', 'i', 'o', 'n', 's', ':', '\n']
}

/// True of the names that `getopts` takes for an option that is asked
/// after by its short name: a short name of one byte, and a long name that
/// is empty or longer than one byte.
pub open spec fn names_fit(short_name: &str, long_name: &str) -> bool {
    short_name.spec_bytes().len() == 1 && long_name.spec_bytes().len() != 1
}

/// Has `getopts` match the arguments against a flag and an option that
/// takes a value.
///
/// Trusted: `Options::parse`, on options made with `Options::new`,
/// `Options::optflag` and `Options::optopt`, and read with
/// `Matches::opt_present`, `Matches::opt_str`, the field `free` and the
/// text of `Fail`. All of it depends on the arguments of this function
/// alone, so the result has a name: `getopts_matches`. `getopts` panics on
/// a short name of more than one byte, on a long name of exactly one byte
/// and when asked after a name that no option has; `requires` leaves
/// these out.
#[verifier::external_body]
fn match_arguments(
    flag_short: &str,
    flag_long: &str,
    flag_desc: &str,
    option_short: &str,
    option_long: &str,
    option_desc: &str,
    option_hint: &str,
    args: &Vec<String>,
) -> (r: Matching)
    requires
        names_fit(flag_short, flag_long),
        names_fit(option_short, option_long),
    ensures
        matching_view(r) == getopts_matches(
            flag_short@,
            flag_long@,
            flag_desc@,
            option_short@,
            option_long@,
            option_desc@,
            option_hint@,
            args.deep_view(),
        ),
{
    let mut opts = Options::new();
    opts.optflag(flag_short, flag_long, flag_desc);
    opts.optopt(option_short, option_long, option_desc, option_hint);
    match opts.parse(args) {
        Ok(m) => Ok((m.opt_present(flag_short), m.opt_str(option_short), m.free)),
        Err(fail) => Err(fail.to_string()),
    }
}

/// Has `getopts` write the usage text for a flag and an option that takes
/// a value.
///
/// Trusted: `Options::usage`, on options made with `Options::new`,
/// `Options::optflag` and `Options::optopt`. The text depends on the
/// arguments of this function alone, so it has a name: `getopts_usage`. It
/// begins with `brief`, an empty line and the line `Options:`. `getopts`
/// panics on the names that `requires` leaves out.
#[verifier::external_body]
fn usage_text(
    brief: &str,
    flag_short: &str,
    flag_long: &str,
    flag_desc: &str,
    option_short: &str,
    option_long: &str,
    option_desc: &str,
    option_hint: &str,
) -> (text: String)
    requires
        names_fit(flag_short, flag_long),
        names_fit(option_short, option_long),
    ensures
        text@ == getopts_usage(
            brief@,
            flag_short@,
            flag_long@,
            flag_desc@,
            option_short@,
            option_long@,
            option_desc@,
            option_hint@,
        ),
        (brief@ + usage_heading()).is_prefix_of(text@),
{
    let mut opts = Options::new();
    opts.optflag(flag_short, flag_long, flag_desc);
    opts.optopt(option_short, option_long, option_desc, option_hint);
    opts.usage(brief)
}

/// What the command line held.
#[derive(Debug, PartialEq, Eq)]
pub enum Scan {
    /// The arguments do not fit the options of the tool; the text says why.
    Rejected(String),
    /// Help was asked for; the text is the usage of the tool.
    Help(String),
    /// The arguments fit.
    Matched {
        /// The value of the option for the sampling interval, if given.
        duration: Option<String>,
        /// The arguments that belong to no option.
        free: Vec<String>,
    },
}

/// A `Scan` with its texts as sequences of characters.
pub enum ScanView {
    /// The arguments do not fit the options of the tool; the text says why.
    Rejected(Seq<char>),
    /// Help was asked for; the text is the usage of the tool.
    Help(Seq<char>),
    /// The arguments fit.
    Matched {
        /// The value of the option for the sampling interval, if given.
        duration: Option<Seq<char>>,
        /// The arguments that belong to no option.
        free: Seq<Seq<char>>,
    },
}

impl View for Scan {
    type V = ScanView;

    open spec fn view(&self) -> ScanView {
        match *self {
            Scan::Rejected(why) => ScanView::Rejected(why@),
            Scan::Help(text) => ScanView::Help(text@),
            Scan::Matched { duration, free } => ScanView::Matched {
                duration: text_view(duration),
                free: free.deep_view(),
            },
        }
    }
}

/// The scan that an answer of `getopts` comes to, where `usage` is the
/// usage text of the tool.
///
/// Arguments that do not fit are rejected with the reason. Where they fit,
/// the flag for help decides: with it the scan is the usage text, whatever
/// else the command line holds, and without it the scan is what was
/// matched.
pub open spec fn scanned(matching: MatchingView, usage: Seq<char>) -> ScanView {
    match matching {
        Err(why) => ScanView::Rejected(why),
        Ok((help, duration, free)) => if help {
            ScanView::Help(usage)
        } else {
            ScanView::Matched { duration, free }
        },
    }
}

/// The scan that an answer of `getopts` comes to: `scanned` of the answer
/// and the usage text.
pub fn scan_of(matching: Matching, usage: String) -> (scan: Scan)
    ensures
        scan@ == scanned(matching_view(matching), usage@),
{
    match matching {
        Err(why) => Scan::Rejected(why),
        Ok((help, duration, free)) => {
            if help {
                Scan::Help(usage)
            } else {
                Scan::Matched { duration, free }
            }
        },
    }
}

/// The first line of the usage text.
pub open spec fn usage_brief() -> Seq<char> {
    "Usage: cgstat [-d DURATION]"@
}

/// What `getopts` makes of the arguments `args` for the options of the
/// tool: the flag `-h`, `--help` and the option `-d`, `--duration` that
/// takes a value.
pub open spec fn tool_matches(args: Seq<Seq<char>>) -> MatchingView {
    getopts_matches(
        "h"@,
        "help"@,
        "Show help"@,
        "d"@,
        "duration"@,
        "Sample inerval (float)"@,
        "DURATION"@,
        args,
    )
}

/// The usage text that `getopts` writes for the options of the tool.
pub open spec fn tool_usage() -> Seq<char> {
    getopts_usage(
        usage_brief(),
        "h"@,
        "help"@,
        "Show help"@,
        "d"@,
        "duration"@,
        "Sample inerval (float)"@,
        "DURATION"@,
    )
}

/// A text of ASCII characters is as many bytes long as it has characters.
proof fn lemma_ascii_len(s: &str)
    requires
        is_ascii_chars(s@),
    ensures
        s.spec_bytes().len() == s@.len(),
{
    is_ascii_chars_encode_utf8(s@);
}

/// The names of the options of the tool are names that `getopts` takes.
proof fn lemma_tool_names_fit()
    ensures
        names_fit("h", "help"),
        names_fit("d", "duration"),
{
    reveal_strlit("h");
    reveal_strlit("help");
    reveal_strlit("d");
    reveal_strlit("duration");
    lemma_ascii_len("h");
    lemma_ascii_len("help");
    lemma_ascii_len("d");
    lemma_ascii_len("duration");
}

/// The usage text of the tool: its first line, the heading of the options
/// and what `getopts` writes of each option.
fn format_usage() -> (text: String)
    ensures
        text@ == tool_usage(),
        (usage_brief() + usage_heading()).is_prefix_of(text@),
{
    proof {
        lemma_tool_names_fit();
    }
    usage_text(
        "Usage: cgstat [-d DURATION]",
        "h",
        "help",
        "Show help",
        "d",
        "duration",
        "Sample inerval (float)",
        "DURATION",
    )
}

/// Reads the command line of the tool.
///
/// The tool has a flag `-h`, `--help` and an option `-d`, `--duration` with
/// a value. Which arguments fit them is for `getopts` to say, and the
/// result is `scanned` of its answer: `Rejected` with its reason where the
/// arguments do not fit, `Help` with the usage text where the flag was
/// given, and else `Matched` with the value of the option and the free
/// arguments. The usage text begins with the line
/// `Usage: cgstat [-d DURATION]` and the heading of the options.
pub fn scan_command_line(args: &Vec<String>) -> (scan: Scan)
    ensures
        scan@ == scanned(tool_matches(args.deep_view()), tool_usage()),
        scan matches Scan::Help(text) ==> (usage_brief() + usage_heading()).is_prefix_of(text@),
{
    proof {
        lemma_tool_names_fit();
    }
    let matching = match_arguments(
        "h",
        "help",
        "Show help",
        "d",
        "duration",
        "Sample inerval (float)",
        "DURATION",
        args,
    );
    scan_of(matching, format_usage())
}

} // verus!
