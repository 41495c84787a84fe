//! Looking a counter up in the text of a stat file.
//!
//! A stat file is a run of lines, each a key, one space and a decimal
//! number. The lookup walks the lines in order and stops at the first one
//! that begins with the key and a space.

use crate::decimal::{parse_decimal, parse_u64, NumberError};
use crate::text::{as_text, lemma_ascii_is_text, lemma_text_after_text};
use vstd::pervasive::unreached;
use vstd::prelude::*;
use vstd::slice::{slice_subrange, slice_to_vec};
use vstd::string::StringSliceAdditionalSpecFns;
use vstd::utf8::{
    decode_utf8, encode_utf8_decode_utf8, encode_utf8_valid_utf8, valid_utf8, valid_utf8_concat,
};

verus! {

/// The line feed that ends a line.
pub const NEWLINE: u8 = 0x0a;

/// The carriage return that may stand before the line feed.
pub const RETURN: u8 = 0x0d;

/// The space between a key and its value.
pub const SPACE: u8 = 0x20;

/// Why a lookup did not come to an answer.
#[derive(Debug, PartialEq, Eq)]
pub enum StatError {
    /// A line that the scan reached is not UTF-8 text.
    NotText,
    /// The line that begins with the key holds no number after it.
    Malformed {
        /// What the line holds in place of the number.
        token: String,
        /// Why the token is no number.
        reason: NumberError,
    },
}

/// A `StatError` with its token as a sequence of characters.
pub enum StatErrorView {
    /// A line that the scan reached is not UTF-8 text.
    NotText,
    /// The line that begins with the key holds no number after it.
    Malformed {
        /// What the line holds in place of the number.
        token: Seq<char>,
        /// Why the token is no number.
        reason: NumberError,
    },
}

impl StatErrorView {
    /// The error in words.
    pub open spec fn message_text(self) -> Seq<char> {
        match self {
            StatErrorView::NotText => "stream did not contain valid UTF-8"@,
            StatErrorView::Malformed { token, reason } => "cannot convert '"@ + token + "': "@
                + reason.message_text(),
        }
    }
}

impl View for StatError {
    type V = StatErrorView;

    open spec fn view(&self) -> StatErrorView {
        match *self {
            StatError::NotText => StatErrorView::NotText,
            StatError::Malformed { token, reason } => StatErrorView::Malformed {
                token: token@,
                reason,
            },
        }
    }
}

impl StatError {
    /// The error in words: for a malformed line, what stands in place of
    /// the number and why it is none.
    pub fn message(&self) -> (r: String)
        ensures
            r@ == self@.message_text(),
    {
        match self {
            StatError::NotText => String::from_str("stream did not contain valid UTF-8"),
            StatError::Malformed { token, reason } => {
                let r = String::from_str("cannot convert '").concat(token.as_str()).concat(
                    "': ",
                ).concat(reason.message());
                r
            },
        }
    }
}

/// What a lookup says: the value, `None` where no line names the key, or
/// the reason why the scan stopped.
pub type Finding = Result<Option<u64>, StatErrorView>;

/// The finding that a result of `find_key_val` stands for.
pub open spec fn finding_of(r: Result<Option<u64>, StatError>) -> Finding {
    match r {
        Ok(v) => Ok(v),
        Err(e) => Err(e@),
    }
}

/// How many bytes stand before the first line feed of `data`, or in all of
/// `data` where it holds none.
pub open spec fn line_len(data: Seq<u8>) -> nat
    decreases data.len(),
{
    if data.len() == 0 || data[0] == NEWLINE {
        0
    } else {
        1 + line_len(data.drop_first())
    }
}

/// A line without the carriage return at its end, if it has one.
pub open spec fn without_return(line: Seq<u8>) -> Seq<u8> {
    if line.len() > 0 && line.last() == RETURN {
        line.drop_last()
    } else {
        line
    }
}

/// The lines of a stream.
///
/// A line ends at a line feed, which is not part of it, nor is a carriage
/// return that stands directly before the line feed. What follows the last
/// line feed is a line too, taken as it is, unless nothing follows.
pub open spec fn lines_of(data: Seq<u8>) -> Seq<Seq<u8>>
    decreases data.len(),
{
    if data.len() == 0 {
        Seq::empty()
    } else {
        let n = line_len(data) as int;
        if n < data.len() {
            seq![without_return(data.take(n))] + lines_of(data.skip(n + 1))
        } else {
            seq![data]
        }
    }
}

/// What a line must begin with to name the key: the key and one space.
pub open spec fn key_prefix(key: Seq<u8>) -> Seq<u8> {
    key.push(SPACE)
}

/// True of a line that is text and does not begin with the prefix: the scan
/// passes over it.
pub open spec fn unrelated(line: Seq<u8>, prefix: Seq<u8>) -> bool {
    valid_utf8(line) && !prefix.is_prefix_of(line)
}

/// What one line says about the key, or `None` where the line is unrelated.
///
/// A line that is not text stops the scan. A line that begins with the
/// prefix gives the number written after it, or is malformed.
pub open spec fn read_line(line: Seq<u8>, prefix: Seq<u8>) -> Option<Finding> {
    if !valid_utf8(line) {
        Some(Err(StatErrorView::NotText))
    } else if !prefix.is_prefix_of(line) {
        None
    } else {
        let token = line.skip(prefix.len() as int);
        match parse_decimal(token) {
            Ok(v) => Some(Ok(Some(v))),
            Err(reason) => Some(
                Err(StatErrorView::Malformed { token: decode_utf8(token), reason }),
            ),
        }
    }
}

/// What the first line that is not unrelated says, or `Ok(None)` where all
/// lines are unrelated.
pub open spec fn scan_lines(lines: Seq<Seq<u8>>, prefix: Seq<u8>) -> Finding
    decreases lines.len(),
{
    if lines.len() == 0 {
        Ok(None)
    } else {
        match read_line(lines[0], prefix) {
            Some(f) => f,
            None => scan_lines(lines.drop_first(), prefix),
        }
    }
}

/// The value of `key` in the stream `data`.
pub open spec fn find(data: Seq<u8>, key: Seq<u8>) -> Finding {
    scan_lines(lines_of(data), key_prefix(key))
}

/// A run of bytes without a line feed, followed by a line feed or by the
/// end, is the first line.
pub proof fn lemma_line_len_is(data: Seq<u8>, n: int)
    requires
        0 <= n <= data.len(),
        forall|i: int| 0 <= i < n ==> data[i] != NEWLINE,
        n < data.len() ==> data[n] == NEWLINE,
    ensures
        line_len(data) == n,
    decreases data.len(),
{
    if n > 0 {
        let t = data.drop_first();
        lemma_line_len_is(t, n - 1);
    }
}

/// Where the line that begins at `start` ends: at the next line feed, or at
/// the end of the stream.
fn line_end(data: &[u8], start: usize) -> (end: usize)
    requires
        start <= data.len(),
    ensures
        start <= end <= data.len(),
        end - start == line_len(data@.skip(start as int)),
{
    let mut end: usize = start;
    while end < data.len() && data[end] != NEWLINE
        invariant
            start <= end <= data.len(),
            forall|i: int| start <= i < end ==> data@[i] != NEWLINE,
        decreases data.len() - end,
    {
        end = end + 1;
    }
    proof {
        lemma_line_len_is(data@.skip(start as int), end - start);
    }
    end
}

/// True when `line` begins with `prefix`.
pub fn starts_with(line: &[u8], prefix: &[u8]) -> (r: bool)
    ensures
        r == prefix@.is_prefix_of(line@),
{
    if prefix.len() > line.len() {
        return false;
    }
    let mut i: usize = 0;
    while i < prefix.len()
        invariant
            i <= prefix.len() <= line.len(),
            forall|j: int| 0 <= j < i ==> prefix@[j] == line@[j],
        decreases prefix.len() - i,
    {
        if prefix[i] != line[i] {
            return false;
        }
        i = i + 1;
    }
    true
}

/// The key and the space after it are text.
pub proof fn lemma_key_prefix_is_text(key: &str)
    ensures
        valid_utf8(key_prefix(key.spec_bytes())),
{
    encode_utf8_valid_utf8(key@);
    lemma_ascii_is_text(seq![SPACE]);
    valid_utf8_concat(key.spec_bytes(), seq![SPACE]);
    assert(key.spec_bytes() + seq![SPACE] =~= key_prefix(key.spec_bytes()));
}

/// What one line says about the key whose prefix is `prefix`.
///
/// `None` where the line is unrelated and the scan goes on; else the value
/// or the reason why the scan stops, as `read_line` gives it.
fn check_line(line: &[u8], prefix: &[u8]) -> (r: Option<Result<Option<u64>, StatError>>)
    requires
        valid_utf8(prefix@),
    ensures
        match r {
            Some(found) => read_line(line@, prefix@) == Some(finding_of(found)),
            None => read_line(line@, prefix@) is None,
        },
{
    if as_text(line).is_none() {
        return Some(Err(StatError::NotText));
    }
    if !starts_with(line, prefix) {
        return None;
    }
    let token = slice_subrange(line, prefix.len(), line.len());
    match parse_u64(token) {
        Ok(v) => Some(Ok(Some(v))),
        Err(reason) => {
            proof {
                assert(prefix@ + token@ =~= line@);
                lemma_text_after_text(prefix@, token@);
            }
            match as_text(token) {
                Some(text) => {
                    proof {
                        encode_utf8_decode_utf8(text@);
                    }
                    Some(Err(StatError::Malformed { token: String::from_str(text), reason }))
                },
                None => unreached(),
            }
        },
    }
}

/// The value of `key` in the stream `data`.
///
/// The lines of `data` are read in order. The first line that begins with
/// `key` and one space decides: the rest of that line is the value, an
/// unsigned decimal number of 64 bits, and a rest that is no such number is
/// the error `Malformed` with that rest. Lines after it are not looked at.
/// Where the stream ends before such a line, the result is `Ok(None)`. A
/// line that is not UTF-8 text, met before the key, is the error `NotText`.
pub fn find_key_val(data: &[u8], key: &str) -> (r: Result<Option<u64>, StatError>)
    ensures
        finding_of(r) == find(data@, key.spec_bytes()),
{
    let mut prefix: Vec<u8> = slice_to_vec(key.as_bytes());
    prefix.push(SPACE);
    let mut start: usize = 0;
    proof {
        lemma_key_prefix_is_text(key);
    }
    assert(data@.skip(0) =~= data@);
    while start < data.len()
        invariant
            start <= data.len(),
            prefix@ == key_prefix(key.spec_bytes()),
            valid_utf8(prefix@),
            scan_lines(lines_of(data@.skip(start as int)), prefix@) == find(
                data@,
                key.spec_bytes(),
            ),
        decreases data.len() - start,
    {
        let end: usize = line_end(data, start);
        let ghost rest = data@.skip(start as int);
        let ghost n = (end - start) as int;
        let stop: usize = if end < data.len() && end > start && data[end - 1] == RETURN {
            end - 1
        } else {
            end
        };
        let next: usize = if end < data.len() {
            end + 1
        } else {
            end
        };
        let line = slice_subrange(data, start, stop);
        proof {
            let lines = lines_of(rest);
            if end < data.len() {
                assert(rest.skip(n + 1) =~= data@.skip(next as int));
                assert(lines.drop_first() =~= lines_of(rest.skip(n + 1)));
            } else {
                assert(lines.drop_first() =~= Seq::<Seq<u8>>::empty());
            }
            assert(lines[0] == line@);
        }
        match check_line(line, prefix.as_slice()) {
            Some(found) => {
                return found;
            },
            None => {},
        }
        start = next;
    }
    Ok(None)
}

} // verus!
