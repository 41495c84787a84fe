//! What holds of every lookup, proved from the definition of `find`.

use crate::decimal::{
    decimal_digits, digit_run, is_digit, lemma_decimal_round_trip, lemma_digit_run_bounds,
    parse_decimal, unsigned_part,
};
use crate::stat::{
    find, finding_of, key_prefix, lemma_key_prefix_is_text, lemma_line_len_is, lines_of,
    read_line, scan_lines, unrelated, without_return, StatError, StatErrorView, NEWLINE,
};
use crate::text::{lemma_ascii_is_text, lemma_text_after_text};
use vstd::prelude::*;
use vstd::string::StringSliceAdditionalSpecFns;
use vstd::utf8::{decode_utf8, valid_utf8, valid_utf8_concat};

verus! {

/// A stream that is a line, a line feed and a rest has that line first,
/// without the carriage return at its end, and then the lines of the rest.
pub proof fn lemma_lines_of_first(line: Seq<u8>, rest: Seq<u8>)
    requires
        forall|i: int| 0 <= i < line.len() ==> line[i] != NEWLINE,
    ensures
        lines_of(line + seq![NEWLINE] + rest) == seq![without_return(line)] + lines_of(rest),
{
    let data = line + seq![NEWLINE] + rest;
    let n = line.len() as int;
    lemma_line_len_is(data, n);
    assert(data.take(n) =~= line);
    assert(data.skip(n + 1) =~= rest);
}

/// A stream without a line feed is one line, taken as it is, or no line
/// where the stream is empty.
pub proof fn lemma_lines_of_last(line: Seq<u8>)
    requires
        forall|i: int| 0 <= i < line.len() ==> line[i] != NEWLINE,
    ensures
        lines_of(line) == if line.len() == 0 {
            Seq::<Seq<u8>>::empty()
        } else {
            seq![line]
        },
{
    lemma_line_len_is(line, line.len() as int);
}

/// Text that is a number is made of a plus sign and digits, and so is text.
pub proof fn lemma_number_is_text(number: Seq<u8>)
    requires
        parse_decimal(number) is Ok,
    ensures
        valid_utf8(number),
{
    let d = unsigned_part(number);
    lemma_digit_run_bounds(d);
    assert(d.take(digit_run(d) as int) =~= d);
    assert forall|i: int| 0 <= i < number.len() implies #[trigger] number[i] < 128 by {
        if d.len() < number.len() && i > 0 {
            assert(is_digit(d[i - 1]));
        }
    }
    lemma_ascii_is_text(number);
}

/// A key, a space and a number make a line that names the key and gives
/// the number.
pub proof fn lemma_line_of_key_and_number(key: &str, number: Seq<u8>)
    ensures
        key_prefix(key.spec_bytes()).is_prefix_of(key_prefix(key.spec_bytes()) + number),
        (key_prefix(key.spec_bytes()) + number).skip(key_prefix(key.spec_bytes()).len() as int)
            == number,
        valid_utf8(number) ==> valid_utf8(key_prefix(key.spec_bytes()) + number),
{
    let prefix = key_prefix(key.spec_bytes());
    let line = prefix + number;
    if valid_utf8(number) {
        lemma_key_prefix_is_text(key);
        valid_utf8_concat(prefix, number);
    }
}

/// The first line that is not unrelated decides the scan, whatever the
/// lines after it hold.
pub proof fn lemma_first_related_line_decides(lines: Seq<Seq<u8>>, prefix: Seq<u8>, i: int)
    requires
        0 <= i < lines.len(),
        forall|j: int| 0 <= j < i ==> unrelated(#[trigger] lines[j], prefix),
        !unrelated(lines[i], prefix),
    ensures
        Some(scan_lines(lines, prefix)) == read_line(lines[i], prefix),
    decreases i,
{
    if i > 0 {
        lemma_first_related_line_decides(lines.drop_first(), prefix, i - 1);
    }
}

/// A scan over unrelated lines finds nothing and reports no error.
pub proof fn lemma_unrelated_lines_give_none(lines: Seq<Seq<u8>>, prefix: Seq<u8>)
    requires
        forall|j: int| 0 <= j < lines.len() ==> unrelated(#[trigger] lines[j], prefix),
    ensures
        scan_lines(lines, prefix) == Ok::<Option<u64>, StatErrorView>(None),
    decreases lines.len(),
{
    if lines.len() > 0 {
        let rest = lines.drop_first();
        lemma_unrelated_lines_give_none(rest, prefix);
    }
}

/// Where a line of the stream is the key, one space and a number, and the
/// lines before it are unrelated, the lookup gives that number. The lines
/// after it do not matter.
pub proof fn lemma_exact_line_gives_value(data: Seq<u8>, key: &str, number: Seq<u8>, i: int)
    requires
        0 <= i < lines_of(data).len(),
        lines_of(data)[i] == key_prefix(key.spec_bytes()) + number,
        parse_decimal(number) is Ok,
        forall|j: int|
            0 <= j < i ==> unrelated(#[trigger] lines_of(data)[j], key_prefix(key.spec_bytes())),
    ensures
        find(data, key.spec_bytes()) == Ok::<Option<u64>, StatErrorView>(
            Some(parse_decimal(number)->Ok_0),
        ),
{
    lemma_number_is_text(number);
    lemma_line_of_key_and_number(key, number);
    lemma_first_related_line_decides(lines_of(data), key_prefix(key.spec_bytes()), i);
}

/// Where a line of the stream is the key, one space and the digits of `n`,
/// and the lines before it are unrelated, the lookup gives `n`.
pub proof fn lemma_written_value_is_found(data: Seq<u8>, key: &str, n: u64, i: int)
    requires
        0 <= i < lines_of(data).len(),
        lines_of(data)[i] == key_prefix(key.spec_bytes()) + decimal_digits(n as nat),
        forall|j: int|
            0 <= j < i ==> unrelated(#[trigger] lines_of(data)[j], key_prefix(key.spec_bytes())),
    ensures
        find(data, key.spec_bytes()) == Ok::<Option<u64>, StatErrorView>(Some(n)),
{
    lemma_decimal_round_trip(n);
    lemma_exact_line_gives_value(data, key, decimal_digits(n as nat), i);
}

/// Where every line of the stream is text and none begins with the key and
/// a space, the lookup gives `None` and no error.
pub proof fn lemma_missing_key_is_absent(data: Seq<u8>, key: &str)
    requires
        forall|j: int|
            0 <= j < lines_of(data).len() ==> unrelated(
                #[trigger] lines_of(data)[j],
                key_prefix(key.spec_bytes()),
            ),
    ensures
        find(data, key.spec_bytes()) == Ok::<Option<u64>, StatErrorView>(None),
{
    lemma_unrelated_lines_give_none(lines_of(data), key_prefix(key.spec_bytes()));
}

/// Of two lines that give the key different numbers, the first wins: the
/// lookup gives its number and not the other.
pub proof fn lemma_first_match_wins(data: Seq<u8>, key: &str, a: u64, b: u64, i: int, k: int)
    requires
        0 <= i < k < lines_of(data).len(),
        a != b,
        lines_of(data)[i] == key_prefix(key.spec_bytes()) + decimal_digits(a as nat),
        lines_of(data)[k] == key_prefix(key.spec_bytes()) + decimal_digits(b as nat),
        forall|j: int|
            0 <= j < i ==> unrelated(#[trigger] lines_of(data)[j], key_prefix(key.spec_bytes())),
    ensures
        find(data, key.spec_bytes()) == Ok::<Option<u64>, StatErrorView>(Some(a)),
        find(data, key.spec_bytes()) != Ok::<Option<u64>, StatErrorView>(Some(b)),
{
    lemma_written_value_is_found(data, key, a, i);
}

/// Where the first line that begins with the key and a space holds no
/// number after them, the lookup is an error: neither `None` nor a value.
/// The error is `Malformed`, with what the line holds instead and the
/// reason, where that is text, and `NotText` where it is not.
pub proof fn lemma_malformed_line_is_error(data: Seq<u8>, key: &str, token: Seq<u8>, i: int)
    requires
        0 <= i < lines_of(data).len(),
        lines_of(data)[i] == key_prefix(key.spec_bytes()) + token,
        parse_decimal(token) is Err,
        forall|j: int|
            0 <= j < i ==> unrelated(#[trigger] lines_of(data)[j], key_prefix(key.spec_bytes())),
    ensures
        find(data, key.spec_bytes()) is Err,
        valid_utf8(token) ==> find(data, key.spec_bytes()) == Err::<Option<u64>, StatErrorView>(
            StatErrorView::Malformed {
                token: decode_utf8(token),
                reason: parse_decimal(token)->Err_0,
            },
        ),
        !valid_utf8(token) ==> find(data, key.spec_bytes()) == Err::<Option<u64>, StatErrorView>(
            StatErrorView::NotText,
        ),
{
    let prefix = key_prefix(key.spec_bytes());
    lemma_line_of_key_and_number(key, token);
    lemma_key_prefix_is_text(key);
    if valid_utf8(prefix + token) {
        lemma_text_after_text(prefix, token);
    }
    lemma_first_related_line_decides(lines_of(data), prefix, i);
}

/// Two lookups of one key in one stream say the same.
pub proof fn lemma_lookup_repeats(
    data: Seq<u8>,
    key: &str,
    first: Result<Option<u64>, StatError>,
    second: Result<Option<u64>, StatError>,
)
    requires
        finding_of(first) == find(data, key.spec_bytes()),
        finding_of(second) == find(data, key.spec_bytes()),
    ensures
        finding_of(first) == finding_of(second),
        first is Ok ==> first == second,
{
}

} // verus!
