//! The sampling loop as a machine of two states.
//!
//! The program that runs the loop reads the stat file, prints and waits;
//! what it does next is decided here. In the state `Sampling` the stat file
//! is read once and `Sampling::sampled` is told what came of it: a value
//! leads to the state `Emitting`, anything else ends the run. In the state
//! `Emitting` one line is written and the interval waited, and
//! `Emitting::emitted` leads back to `Sampling`. A state is used up by the
//! step that leaves it, so each tick samples once and no tick begins before
//! the last has ended.

use crate::decimal::{decimal_digits, render_u64};
use crate::options::{is_unrooted, CgstatOptions, Interval, OptionsError};
use crate::stat::{find, find_key_val};
use crate::text::ascii_text;
use crate::timestamp::{rfc3339_utc, write_rfc3339_utc};
use vstd::prelude::*;
use vstd::string::StringSliceAdditionalSpecFns;

verus! {

/// Where the control groups are mounted.
pub const CGROUP_BASE_MOUNT: &'static str = "/sys/fs/cgroup";

/// The controller whose accounting is read.
pub const CONTROLLER: &'static str = "memory";

/// The name of the stat file in the directory of a control group.
pub const STAT_FILE: &'static str = "memory.stat";

/// The key of the counter that is sampled.
pub const SAMPLE_KEY: &'static str = "rss";

/// The kinds of error that end a run.
#[derive(Clone, Copy, Debug, PartialEq, Eq)]
pub enum ErrorKind {
    /// The command line gives no configuration.
    Configuration,
    /// The stat file could not be opened or read.
    NotFound,
    /// The stat file does not hold what a stat file holds.
    FormatViolation,
    /// The stat file was read and does not name the key.
    KeyAbsent,
}

/// An error that ends the run.
#[derive(Debug, PartialEq, Eq)]
pub struct Fatal {
    /// The kind of the error.
    pub kind: ErrorKind,
    /// The error in words.
    pub message: String,
}

/// How a run ends that does not come to sampling, or stops sampling.
#[derive(Debug, PartialEq, Eq)]
pub enum Exit {
    /// Help was asked for: the usage text is shown.
    Help(String),
    /// An error ends the run.
    Failed(Fatal),
}

impl Exit {
    /// The exit code of the process: zero after help, one after an error.
    pub fn code(&self) -> (c: u8)
        ensures
            c == (if *self is Help {
                0u8
            } else {
                1u8
            }),
    {
        match self {
            Exit::Help(_) => 0,
            Exit::Failed(_) => 1,
        }
    }
}

/// How the run ends on a command line that gives no configuration: with
/// the usage text where help was asked for, else with an error of the kind
/// `Configuration` and the reason as its message.
pub fn exit_without_options(error: OptionsError) -> (exit: Exit)
    ensures
        match error {
            OptionsError::Usage(text) => exit matches Exit::Help(shown) && shown@ == text@,
            OptionsError::Invalid(why) => exit matches Exit::Failed(fatal) && fatal.kind
                == ErrorKind::Configuration && fatal.message@ == why@,
        },
{
    match error {
        OptionsError::Usage(text) => Exit::Help(text),
        OptionsError::Invalid(why) => Exit::Failed(
            Fatal { kind: ErrorKind::Configuration, message: why },
        ),
    }
}

/// A path with another joined to it. A part that begins at the root stands
/// for itself; else it follows the base, after a separator where the base
/// does not end in one.
pub open spec fn joined(base: Seq<char>, part: Seq<char>) -> Seq<char> {
    if part.len() > 0 && part[0] == '/' {
        part
    } else if base.len() == 0 || base.last() == '/' {
        base + part
    } else {
        base + seq!['/'] + part
    }
}

/// Joins `part` to the path `base`.
pub fn join_path(base: &str, part: &str) -> (r: String)
    ensures
        r@ == joined(base@, part@),
{
    if part.unicode_len() > 0 && part.get_char(0) == '/' {
        return String::from_str(part);
    }
    let n: usize = base.unicode_len();
    let r = if n == 0 || base.get_char(n - 1) == '/' {
        String::from_str(base).concat(part)
    } else {
        proof {
            reveal_strlit("/");
        }
        String::from_str(base).concat("/").concat(part)
    };
    r
}

/// The stat file of the control group `cg_name`.
pub open spec fn stat_file_of(cg_name: Seq<char>) -> Seq<char> {
    joined(joined(joined(CGROUP_BASE_MOUNT@, CONTROLLER@), cg_name), STAT_FILE@)
}

/// The directory of the memory controller, with the separator after it:
/// where the stat files of all control groups lie.
pub open spec fn memory_root() -> Seq<char> {
    "/sys/fs/cgroup/memory/"@
}

/// The stat file of a name that does not begin with a separator lies under
/// the directory of the memory controller.
pub proof fn lemma_stat_file_under_root(cg_name: Seq<char>)
    requires
        is_unrooted(cg_name),
    ensures
        memory_root().is_prefix_of(stat_file_of(cg_name)),
{
    reveal_strlit("/sys/fs/cgroup");
    reveal_strlit("memory");
    reveal_strlit("memory.stat");
    reveal_strlit("/sys/fs/cgroup/memory/");
    let root = memory_root();
    let controller = joined(CGROUP_BASE_MOUNT@, CONTROLLER@);
    assert(controller =~= root.drop_last());
    let directory = joined(controller, cg_name);
    assert(directory =~= root + cg_name);
    let file = stat_file_of(cg_name);
    assert(file.len() >= directory.len());
    assert(file.subrange(0, root.len() as int) =~= root);
}

/// The path of the stat file of the control group `cg_name`: the file
/// `memory.stat` in the directory of that name under the memory controller.
/// A name that does not begin with a separator has its file under the
/// directory of the memory controller.
pub fn stat_file_path(cg_name: &str) -> (r: String)
    ensures
        r@ == stat_file_of(cg_name@),
        is_unrooted(cg_name@) ==> memory_root().is_prefix_of(r@),
{
    proof {
        if is_unrooted(cg_name@) {
            lemma_stat_file_under_root(cg_name@);
        }
    }
    let controller = join_path(CGROUP_BASE_MOUNT, CONTROLLER);
    let directory = join_path(controller.as_str(), cg_name);
    join_path(directory.as_str(), STAT_FILE)
}

/// The line that is written for a sample: the timestamp, a comma and the
/// value in decimal digits.
pub open spec fn sample_text(timestamp: Seq<char>, value: u64) -> Seq<char> {
    timestamp + seq![','] + ascii_text(decimal_digits(value as nat))
}

/// The line that is written for a sample taken at `timestamp`.
pub fn sample_line(timestamp: &str, value: u64) -> (r: String)
    ensures
        r@ == sample_text(timestamp@, value),
{
    proof {
        reveal_strlit(",");
    }
    let digits = render_u64(value);
    let r = String::from_str(timestamp).concat(",").concat(digits.as_str());
    r
}

/// The message of the error that ends the run where the key is missing.
pub open spec fn key_absent_message() -> Seq<char> {
    "key not found in file"@
}

/// What stays the same from tick to tick.
pub struct Plan {
    /// The path of the stat file.
    pub stat_file: Seq<char>,
    /// How long to wait after a sample.
    pub interval: Interval,
}

/// The state in which the stat file is read.
#[derive(Debug)]
pub struct Sampling {
    stat_file: String,
    interval: Interval,
}

/// The state in which a sample is written and the interval waited.
#[derive(Debug)]
pub struct Emitting {
    stat_file: String,
    interval: Interval,
    value: u64,
}

/// True when `r` is what a reading of the stat file leads to under `plan`.
///
/// `contents` holds the bytes of the file, or the cause where it could not
/// be opened or read. The value of the key leads on with that value. A file
/// that could not be read is an error of the kind `NotFound`, whose message
/// names the file and the cause; a file without the key, one of the kind
/// `KeyAbsent`; and a file that is no text or gives the key no number, one
/// of the kind `FormatViolation` with the message of the lookup.
pub open spec fn is_sampled(
    plan: Plan,
    contents: Result<Vec<u8>, String>,
    r: Result<Emitting, Fatal>,
) -> bool {
    match contents {
        Err(cause) => r matches Err(fatal) && fatal.kind == ErrorKind::NotFound && fatal.message@
            == plan.stat_file + ": "@ + cause@,
        Ok(data) => match find(data@, SAMPLE_KEY.spec_bytes()) {
            Ok(Some(value)) => r matches Ok(emitting) && emitting.plan() == plan
                && emitting.sample() == value,
            Ok(None) => r matches Err(fatal) && fatal.kind == ErrorKind::KeyAbsent
                && fatal.message@ == key_absent_message(),
            Err(error) => r matches Err(fatal) && fatal.kind == ErrorKind::FormatViolation
                && fatal.message@ == error.message_text(),
        },
    }
}

impl Sampling {
    /// What stays the same from tick to tick.
    pub closed spec fn plan(&self) -> Plan {
        Plan { stat_file: self.stat_file@, interval: self.interval }
    }

    /// The state in which a run begins: the first sample is taken at once.
    pub fn start(options: &CgstatOptions) -> (r: Sampling)
        ensures
            r.plan() == (Plan {
                stat_file: stat_file_of(options.cg_name@),
                interval: options.interval,
            }),
            is_unrooted(options.cg_name@) ==> memory_root().is_prefix_of(r.plan().stat_file),
    {
        Sampling {
            stat_file: stat_file_path(options.cg_name.as_str()),
            interval: options.interval,
        }
    }

    /// The path of the file to read.
    pub fn stat_file(&self) -> (r: &str)
        ensures
            r@ == self.plan().stat_file,
    {
        self.stat_file.as_str()
    }

    /// The step that follows a reading of the stat file.
    pub fn sampled(self, contents: Result<Vec<u8>, String>) -> (r: Result<Emitting, Fatal>)
        ensures
            is_sampled(self.plan(), contents, r),
    {
        match contents {
            Err(cause) => {
                let message = self.stat_file.concat(": ").concat(cause.as_str());
                Err(Fatal { kind: ErrorKind::NotFound, message })
            },
            Ok(data) => {
                let found = find_key_val(data.as_slice(), SAMPLE_KEY);
                match found {
                    Ok(Some(value)) => Ok(
                        Emitting { stat_file: self.stat_file, interval: self.interval, value },
                    ),
                    Ok(None) => Err(
                        Fatal {
                            kind: ErrorKind::KeyAbsent,
                            message: String::from_str("key not found in file"),
                        },
                    ),
                    Err(error) => Err(
                        Fatal { kind: ErrorKind::FormatViolation, message: error.message() },
                    ),
                }
            },
        }
    }
}

impl Emitting {
    /// What stays the same from tick to tick.
    pub closed spec fn plan(&self) -> Plan {
        Plan { stat_file: self.stat_file@, interval: self.interval }
    }

    /// The value that was sampled.
    pub closed spec fn sample(&self) -> u64 {
        self.value
    }

    /// The value that was sampled.
    pub fn value(&self) -> (r: u64)
        ensures
            r == self.sample(),
    {
        self.value
    }

    /// The line to write for a sample taken at `timestamp`.
    pub fn line(&self, timestamp: &str) -> (r: String)
        ensures
            r@ == sample_text(timestamp@, self.sample()),
    {
        sample_line(timestamp, self.value)
    }

    /// The line to write for a sample taken `secs` seconds and `nanos`
    /// nanoseconds after the beginning of the year 1970: the instant in
    /// RFC 3339 with the offset of UTC, a comma and the value. `None` where
    /// the instant is out of the range of the calendar.
    pub fn line_at(&self, secs: i64, nanos: u32) -> (r: Option<String>)
        ensures
            match rfc3339_utc(secs, nanos) {
                Some(timestamp) => r matches Some(line) && line@ == sample_text(
                    timestamp,
                    self.sample(),
                ),
                None => r is None,
            },
    {
        match write_rfc3339_utc(secs, nanos) {
            Some(timestamp) => Some(self.line(timestamp.as_str())),
            None => None,
        }
    }

    /// How long to wait once the line is written.
    pub fn wait(&self) -> (r: Interval)
        ensures
            r == self.plan().interval,
    {
        self.interval
    }

    /// The step that follows the writing and the wait: the next tick.
    pub fn emitted(self) -> (r: Sampling)
        ensures
            r.plan() == self.plan(),
    {
        Sampling { stat_file: self.stat_file, interval: self.interval }
    }
}

} // verus!
