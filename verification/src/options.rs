//! The configuration of the tool, and how the command line becomes one.

use crate::command_line::Scan;
use vstd::prelude::*;

verus! {

/// A span of time: whole seconds and a number of nanoseconds on top.
#[derive(Clone, Copy, Debug, PartialEq, Eq)]
pub struct Interval {
    /// The whole seconds.
    pub secs: u64,
    /// The nanoseconds on top of the seconds.
    pub nanos: u32,
}

impl Interval {
    /// The span in nanoseconds.
    pub open spec fn total_nanos(self) -> nat {
        (self.secs * 1_000_000_000 + self.nanos) as nat
    }

    /// True of the span of no length.
    pub fn is_zero(&self) -> (r: bool)
        ensures
            r == (self.total_nanos() == 0),
    {
        self.secs == 0 && self.nanos == 0
    }
}

/// What the tool was asked to do.
#[derive(Debug, PartialEq, Eq)]
pub struct CgstatOptions {
    /// Sampling interval.
    pub interval: Interval,
    /// Cgroup name.
    pub cg_name: String,
}

impl Default for CgstatOptions {
    /// An interval of one second and no name.
    fn default() -> (r: CgstatOptions)
        ensures
            r.interval == (Interval { secs: 1, nanos: 0 }),
            r.cg_name@ == Seq::<char>::empty(),
    {
        CgstatOptions { interval: Interval { secs: 1, nanos: 0 }, cg_name: String::new() }
    }
}

/// Why a command line gives no configuration.
#[derive(Debug, PartialEq, Eq)]
pub enum OptionsError {
    /// Usage was requested via an explicit flag. Carries the formatted usage
    /// string.
    Usage(String),
    /// The command line is invalid. Carries the reason.
    Invalid(String),
}

/// True of a name that does not begin with the path separator.
pub open spec fn is_unrooted(name: Seq<char>) -> bool {
    name.len() == 0 || name[0] != '/'
}

/// A name without the path separators at its front: the whole run of them
/// is taken off, so that what is left begins with none.
pub open spec fn without_root(name: Seq<char>) -> Seq<char>
    decreases name.len(),
{
    if name.len() > 0 && name[0] == '/' {
        without_root(name.skip(1))
    } else {
        name
    }
}

/// What is left of a name without its root does not begin with a separator.
pub proof fn lemma_without_root_is_unrooted(name: Seq<char>)
    ensures
        is_unrooted(without_root(name)),
    decreases name.len(),
{
    if name.len() > 0 && name[0] == '/' {
        lemma_without_root_is_unrooted(name.skip(1));
    }
}

/// Where a name begins with `k` separators and no more, the name without
/// its root is what follows them.
pub proof fn lemma_without_root_skips(name: Seq<char>, k: int)
    requires
        0 <= k <= name.len(),
        forall|i: int| 0 <= i < k ==> name[i] == '/',
        k < name.len() ==> name[k] != '/',
    ensures
        without_root(name) == name.skip(k),
    decreases k,
{
    if k == 0 {
        assert(name.skip(0) =~= name);
    } else {
        let rest = name.skip(1);
        assert forall|i: int| 0 <= i < k - 1 implies rest[i] == '/' by {
            assert(rest[i] == name[i + 1]);
        }
        lemma_without_root_skips(rest, k - 1);
        assert(rest.skip(k - 1) =~= name.skip(k));
    }
}

/// The name of a control group as it is kept: without path separators at
/// its front, so that it names a place under the root of the control
/// groups and none beside it.
pub fn strip_root(name: &str) -> (r: String)
    ensures
        r@ == without_root(name@),
        is_unrooted(r@),
{
    let n: usize = name.unicode_len();
    let mut k: usize = 0;
    while k < n && name.get_char(k) == '/'
        invariant
            k <= n,
            n == name@.len(),
            forall|i: int| 0 <= i < k ==> name@[i] == '/',
        decreases n - k,
    {
        k = k + 1;
    }
    proof {
        lemma_without_root_skips(name@, k as int);
        lemma_without_root_is_unrooted(name@);
    }
    let rest = name.substring_char(k, n);
    assert(rest@ =~= name@.skip(k as int));
    String::from_str(rest)
}

/// The message for arguments that do not fit the options, before the reason.
pub open spec fn rejected_message() -> Seq<char> {
    "error parsing arguments: "@
}

/// The message for an interval that is no number, before the reason.
pub open spec fn interval_message() -> Seq<char> {
    "cannot parse interval: "@
}

/// The message for an interval of no length.
pub open spec fn zero_interval_message() -> Seq<char> {
    "interval must be positive"@
}

/// The message for an interval that was handed in without a duration on
/// the command line, or left out where the command line has one.
pub open spec fn mismatch_message() -> Seq<char> {
    "interval does not match duration"@
}

/// The message for a command line without exactly one free argument.
pub open spec fn name_message() -> Seq<char> {
    "no cgroup name"@
}

/// True when `r` is the error `Invalid` with the message `message`.
pub open spec fn is_invalid(r: Result<CgstatOptions, OptionsError>, message: Seq<char>) -> bool {
    r matches Err(OptionsError::Invalid(m)) && m@ == message
}

/// True when `r` is what the scanned command line `scan` and the interval
/// `interval` that the caller read from its duration come to.
///
/// Rejected arguments and a request for help are errors of their own. Then
/// the interval is looked at: it must be there exactly where the command
/// line has a duration, and one that could not be read, or of no length,
/// is an error. Then there must be exactly one free argument, the name of
/// the control group. The configuration holds the interval, or one second
/// where none was given, and the name without its leading separators.
pub open spec fn is_parsed(
    scan: Scan,
    interval: Option<Result<Interval, String>>,
    r: Result<CgstatOptions, OptionsError>,
) -> bool {
    match scan {
        Scan::Rejected(why) => is_invalid(r, rejected_message() + why@),
        Scan::Help(text) => r matches Err(OptionsError::Usage(u)) && u@ == text@,
        Scan::Matched { duration, free } => if (duration is Some) != (interval is Some) {
            is_invalid(r, mismatch_message())
        } else {
            match interval {
                Some(Err(why)) => is_invalid(r, interval_message() + why@),
                Some(Ok(given)) if given.total_nanos() == 0 => is_invalid(
                    r,
                    zero_interval_message(),
                ),
                _ => if free@.len() != 1 {
                    is_invalid(r, name_message())
                } else {
                    &&& r matches Ok(options)
                    &&& options.interval == match interval {
                        Some(Ok(given)) => given,
                        _ => Interval { secs: 1, nanos: 0 },
                    }
                    &&& options.cg_name@ == without_root(free@[0]@)
                },
            }
        },
    }
}

/// The configuration that a scanned command line asks for.
///
/// `interval` is what the caller made of the text of the duration: `None`
/// where the command line gave none, the span where the text is a number of
/// seconds, else the reason why it is none. An interval without a duration,
/// or a duration without an interval, is an error. The result is the one
/// that `is_parsed` describes; a configuration never has an interval of no
/// length, nor a name that begins with a path separator.
pub fn parse_options(scan: Scan, interval: Option<Result<Interval, String>>) -> (r: Result<
    CgstatOptions,
    OptionsError,
>)
    ensures
        is_parsed(scan, interval, r),
        r matches Ok(options) ==> options.interval.total_nanos() > 0,
        r matches Ok(options) ==> is_unrooted(options.cg_name@),
{
    match scan {
        Scan::Rejected(why) => Err(
            OptionsError::Invalid(
                String::from_str("error parsing arguments: ").concat(why.as_str()),
            ),
        ),
        Scan::Help(text) => Err(OptionsError::Usage(text)),
        Scan::Matched { duration, free } => {
            if duration.is_some() != interval.is_some() {
                return Err(
                    OptionsError::Invalid(String::from_str("interval does not match duration")),
                );
            }
            let mut options = CgstatOptions::default();
            match interval {
                Some(Err(why)) => {
                    return Err(
                        OptionsError::Invalid(
                            String::from_str("cannot parse interval: ").concat(why.as_str()),
                        ),
                    );
                },
                Some(Ok(given)) => {
                    if given.is_zero() {
                        return Err(
                            OptionsError::Invalid(String::from_str("interval must be positive")),
                        );
                    }
                    options.interval = given;
                },
                None => {},
            }
            if free.len() != 1 {
                return Err(OptionsError::Invalid(String::from_str("no cgroup name")));
            }
            options.cg_name = strip_root(free[0].as_str());
            Ok(options)
        },
    }
}

} // verus!
