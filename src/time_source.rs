//! Parsing the answers of network time services.
//!
//! One service answers with a bare decimal Unix timestamp; another with
//! lines such as `unixtime: 1700000000` and `raw_offset: 3600`. Integers are
//! written as by Rust's `FromStr`: an optional sign, then one or more ASCII
//! digits, nothing else.
use vstd::prelude::*;
use vstd::slice::slice_subrange;

use crate::clock::representable_timestamp;
use crate::clock::valid_utc_offset;
use crate::clock::fits_in_offset;
use crate::clock::utc_from_unix_timestamp;
use crate::clock::utc_offset_from_seconds;
use crate::clock::WallTime;
use crate::clock::UNIX_TIMESTAMP_MAX;
use crate::clock::UNIX_TIMESTAMP_MIN;

verus! {

/// An error in a time service's answer
#[derive(Copy, Clone, Debug, PartialEq, Eq, Structural)]
pub enum Error {
    /// The answer is not valid UTF-8
    Utf8,
    /// An integer in the answer could not be parsed
    ParseInt,
    /// A time component is out of range
    TimeComponentRange,
    /// The time is invalid in the answer's offset
    InvalidInOffset,
    /// The answer lacks the timestamp or the offset
    Unknown,
}

/// Whether bytes are valid UTF-8
pub uninterp spec fn valid_utf8(bytes: Seq<u8>) -> bool;

/// Relies on `core::str::from_utf8`, which accepts exactly the valid UTF-8
/// byte sequences; ASCII bytes alone are always valid UTF-8.
#[verifier::external_body]
fn is_utf8(bytes: &[u8]) -> (r: bool)
    ensures
        r == valid_utf8(bytes@),
        (forall|i: int| 0 <= i < bytes@.len() ==> #[trigger] bytes@[i] < 0x80) ==> r,
{
    core::str::from_utf8(bytes).is_ok()
}

/// Whether a byte is an ASCII digit
pub open spec fn is_digit(b: u8) -> bool {
    0x30 <= b <= 0x39
}

/// Value of a sequence of ASCII digits
pub open spec fn digits_value(s: Seq<u8>) -> nat
    decreases s.len(),
{
    if s.len() == 0 {
        0
    } else {
        digits_value(s.drop_last()) * 10 + (s.last() - 0x30) as nat
    }
}

/// Whether `s` is one or more ASCII digits
pub open spec fn all_digits(s: Seq<u8>) -> bool {
    s.len() > 0 && forall|i: int| 0 <= i < s.len() ==> is_digit(#[trigger] s[i])
}

/// The integer that `s` spells: an optional `+` or `-`, then digits
pub open spec fn decimal(s: Seq<u8>) -> Option<int> {
    if s.len() > 0 && (s[0] == 0x2b || s[0] == 0x2d) {
        if all_digits(s.skip(1)) {
            if s[0] == 0x2d {
                Some(-(digits_value(s.skip(1)) as int))
            } else {
                Some(digits_value(s.skip(1)) as int)
            }
        } else {
            None
        }
    } else if all_digits(s) {
        Some(digits_value(s) as int)
    } else {
        None
    }
}

/// The integer that `s` spells, if it lies in `low..=high`
pub open spec fn decimal_in(s: Seq<u8>, low: int, high: int) -> Option<int> {
    match decimal(s) {
        Some(v) => if low <= v <= high {
            Some(v)
        } else {
            None
        },
        None => None,
    }
}

/// Bound above which accumulated digits are no longer tracked exactly
pub const DIGITS_CAP: u128 = 0x1_0000_0000_0000_0000;

proof fn lemma_digits_value_grows(s: Seq<u8>, b: u8)
    requires
        is_digit(b),
    ensures
        digits_value(s.push(b)) == digits_value(s) * 10 + (b - 0x30) as nat,
        digits_value(s.push(b)) >= digits_value(s),
{
    assert(s.push(b).drop_last() =~= s);
}

/// The value of the digits `s[start..]` if they are one or more ASCII digits
/// and their value is at most `DIGITS_CAP`
fn parse_digits(s: &[u8], start: usize) -> (r: Option<u128>)
    requires
        start <= s@.len(),
    ensures
        r matches Some(v) ==> all_digits(s@.skip(start as int)) && v == digits_value(s@.skip(start as int))
            && v <= DIGITS_CAP,
        r is None ==> !all_digits(s@.skip(start as int)) || digits_value(s@.skip(start as int)) > DIGITS_CAP,
{
    let n = s.len();
    if start >= n {
        return None;
    }
    let mut acc: u128 = 0;
    let mut big = false;
    let mut i = start;
    while i < n
        invariant
            start <= i <= n,
            n == s@.len(),
            forall|j: int| start <= j < i ==> is_digit(#[trigger] s@[j]),
            !big ==> acc == digits_value(s@.subrange(start as int, i as int)) && acc <= DIGITS_CAP,
            big ==> digits_value(s@.subrange(start as int, i as int)) > DIGITS_CAP,
        decreases n - i,
    {
        let b = s[i];
        if b < 0x30 || b > 0x39 {
            proof {
                assert(s@.skip(start as int)[i - start] == b);
            }
            return None;
        }
        proof {
            assert(s@.subrange(start as int, i + 1) =~= s@.subrange(start as int, i as int).push(b));
            lemma_digits_value_grows(s@.subrange(start as int, i as int), b);
        }
        if !big {
            let next = acc * 10 + (b - 0x30) as u128;
            if next > DIGITS_CAP {
                big = true;
            } else {
                acc = next;
            }
        }
        i = i + 1;
    }
    proof {
        assert(s@.subrange(start as int, n as int) =~= s@.skip(start as int));
        assert forall|j: int| 0 <= j < s@.skip(start as int).len() implies is_digit(
            #[trigger] s@.skip(start as int)[j],
        ) by {
            assert(s@.skip(start as int)[j] == s@[start + j]);
        }
    }
    if big {
        None
    } else {
        Some(acc)
    }
}

/// The integer that `s` spells, if it lies in `low..=high`
fn parse_integer(s: &[u8], low: i128, high: i128) -> (r: Option<i128>)
    requires
        -(DIGITS_CAP as int) <= low <= high <= DIGITS_CAP,
    ensures
        r matches Some(v) ==> decimal_in(s@, low as int, high as int) == Some(v as int),
        r is None ==> decimal_in(s@, low as int, high as int) is None,
{
    let n = s.len();
    let signed = n > 0 && (s[0] == 0x2b || s[0] == 0x2d);
    let start: usize = if signed {
        1
    } else {
        0
    };
    assert(s@.skip(0) =~= s@);
    match parse_digits(s, start) {
        None => None,
        Some(magnitude) => {
            assert(decimal(s@) == Some(if signed && s@[0] == 0x2d {
                -(magnitude as int)
            } else {
                magnitude as int
            }));
            let v: i128 = if signed && s[0] == 0x2d {
                -(magnitude as i128)
            } else {
                magnitude as i128
            };
            if low <= v && v <= high {
                Some(v)
            } else {
                None
            }
        },
    }
}

/// The wall time in the answer of a service that sends a bare decimal Unix
/// timestamp, in UTC, given whether the answer is valid UTF-8
pub open spec fn seconds_text(body: Seq<u8>, utf8: bool) -> Result<WallTime, Error> {
    if !utf8 {
        Err(Error::Utf8)
    } else {
        match decimal_in(body, i64::MIN as int, i64::MAX as int) {
            None => Err(Error::ParseInt),
            Some(t) => if representable_timestamp(t) {
                Ok(WallTime { unix_timestamp: t as i64, offset_seconds: 0 })
            } else {
                Err(Error::TimeComponentRange)
            },
        }
    }
}

/// The wall time in the answer of a service that sends a bare decimal Unix
/// timestamp, in UTC
pub open spec fn seconds_answer(body: Seq<u8>) -> Result<WallTime, Error> {
    seconds_text(body, valid_utf8(body))
}

/// Read the answer of a service that sends a bare decimal Unix timestamp,
/// given whether it is valid UTF-8
pub fn parse_seconds_text(body: &[u8], utf8: bool) -> (r: Result<WallTime, Error>)
    ensures
        r == seconds_text(body@, utf8),
{
    if !utf8 {
        return Err(Error::Utf8);
    }
    match parse_integer(body, i64::MIN as i128, i64::MAX as i128) {
        None => Err(Error::ParseInt),
        Some(t) => {
            if (UNIX_TIMESTAMP_MIN as i128) <= t && t <= (UNIX_TIMESTAMP_MAX as i128) {
                Ok(WallTime { unix_timestamp: t as i64, offset_seconds: 0 })
            } else {
                Err(Error::TimeComponentRange)
            }
        },
    }
}

/// Parse the answer of a service that sends a bare decimal Unix timestamp:
/// a UTC wall time
pub fn parse_seconds_response(body: &[u8]) -> (r: Result<WallTime, Error>)
    ensures
        r == seconds_answer(body@),
{
    parse_seconds_text(body, is_utf8(body))
}

/// The integer that `s` spells without a minus sign, as an unsigned type
/// reads it, if it lies in `low..=high`
pub open spec fn unsigned_in(s: Seq<u8>, low: int, high: int) -> Option<int> {
    if s.len() > 0 && s[0] == 0x2d {
        None
    } else {
        decimal_in(s, low, high)
    }
}

/// The lines of `s`, split at each line feed; the last line may be empty
pub open spec fn split_lines(s: Seq<u8>) -> Seq<Seq<u8>>
    decreases s.len(),
{
    if s.len() == 0 {
        seq![Seq::empty()]
    } else {
        let lines = split_lines(s.drop_last());
        if s.last() == 0x0a {
            lines.push(Seq::empty())
        } else {
            lines.update(lines.len() - 1, lines.last().push(s.last()))
        }
    }
}

/// A line without its trailing carriage return
pub open spec fn trim_cr(line: Seq<u8>) -> Seq<u8> {
    if line.len() > 0 && line.last() == 0x0d {
        line.drop_last()
    } else {
        line
    }
}

/// `unixtime: `
pub open spec fn unixtime_prefix() -> Seq<u8> {
    seq![0x75u8, 0x6e, 0x69, 0x78, 0x74, 0x69, 0x6d, 0x65, 0x3a, 0x20]
}

/// `raw_offset: `
pub open spec fn raw_offset_prefix() -> Seq<u8> {
    seq![0x72u8, 0x61, 0x77, 0x5f, 0x6f, 0x66, 0x66, 0x73, 0x65, 0x74, 0x3a, 0x20]
}

/// Whether `line` starts with `prefix`
pub open spec fn starts_with(line: Seq<u8>, prefix: Seq<u8>) -> bool {
    line.len() >= prefix.len() && line.take(prefix.len() as int) == prefix
}

/// The timestamp and offset found so far, after one more line
pub open spec fn read_line(line: Seq<u8>, found: (Option<int>, Option<int>)) -> Result<
    (Option<int>, Option<int>),
    Error,
> {
    let l = trim_cr(line);
    if starts_with(l, unixtime_prefix()) {
        match unsigned_in(l.skip(unixtime_prefix().len() as int), 0, u64::MAX as int) {
            Some(t) => Ok((Some(t), found.1)),
            None => Err(Error::ParseInt),
        }
    } else if starts_with(l, raw_offset_prefix()) {
        match decimal_in(l.skip(raw_offset_prefix().len() as int), i32::MIN as int, i32::MAX as int) {
            Some(o) => Ok((found.0, Some(o))),
            None => Err(Error::ParseInt),
        }
    } else {
        Ok(found)
    }
}

/// The last timestamp and offset in the lines, or the first error
pub open spec fn read_lines(lines: Seq<Seq<u8>>) -> Result<(Option<int>, Option<int>), Error>
    decreases lines.len(),
{
    if lines.len() == 0 {
        Ok((None, None))
    } else {
        match read_lines(lines.drop_last()) {
            Ok(found) => read_line(lines.last(), found),
            Err(e) => Err(e),
        }
    }
}

/// The wall time in the answer of a lined time service, given whether the
/// answer is valid UTF-8
pub open spec fn lined_text(body: Seq<u8>, utf8: bool) -> Result<WallTime, Error> {
    if !utf8 {
        Err(Error::Utf8)
    } else {
        match read_lines(split_lines(body)) {
            Err(e) => Err(e),
            Ok((Some(t), Some(o))) => if !valid_utc_offset(o) || !representable_timestamp(t) {
                Err(Error::TimeComponentRange)
            } else if !representable_timestamp(t + o) {
                Err(Error::InvalidInOffset)
            } else {
                Ok(WallTime { unix_timestamp: t as i64, offset_seconds: o as i32 })
            },
            Ok(_) => Err(Error::Unknown),
        }
    }
}

/// The wall time in the answer of a lined time service
pub open spec fn world_time_answer(body: Seq<u8>) -> Result<WallTime, Error> {
    lined_text(body, valid_utf8(body))
}

proof fn lemma_split_lines_nonempty(s: Seq<u8>)
    ensures
        split_lines(s).len() >= 1,
    decreases s.len(),
{
    if s.len() > 0 {
        lemma_split_lines_nonempty(s.drop_last());
    }
}

/// Whether `line` starts with `prefix`
fn has_prefix(line: &[u8], prefix: &[u8]) -> (r: bool)
    ensures
        r == starts_with(line@, prefix@),
{
    if line.len() < prefix.len() {
        return false;
    }
    let mut i: usize = 0;
    while i < prefix.len()
        invariant
            i <= prefix@.len() <= line@.len(),
            forall|j: int| 0 <= j < i ==> line@[j] == prefix@[j],
        decreases prefix@.len() - i,
    {
        if line[i] != prefix[i] {
            assert(line@.take(prefix@.len() as int)[i as int] != prefix@[i as int]);
            return false;
        }
        i = i + 1;
    }
    assert(line@.take(prefix@.len() as int) =~= prefix@);
    true
}

/// Read one line of a lined answer
fn read_answer_line(line: &[u8], found: (Option<u64>, Option<i32>)) -> (r: Result<
    (Option<u64>, Option<i32>),
    Error,
>)
    ensures
        match read_line(line@, (opt_int(found.0), opt_int32(found.1))) {
            Ok(f) => r matches Ok(g) && f == (opt_int(g.0), opt_int32(g.1)),
            Err(e) => r == Err::<(Option<u64>, Option<i32>), Error>(e),
        },
{
    let n = line.len();
    let end: usize = if n > 0 && line[n - 1] == 0x0d {
        n - 1
    } else {
        n
    };
    let trimmed = slice_subrange(line, 0, end);
    assert(trimmed@ =~= trim_cr(line@));
    let unixtime: [u8; 10] = [0x75, 0x6e, 0x69, 0x78, 0x74, 0x69, 0x6d, 0x65, 0x3a, 0x20];
    let raw_offset: [u8; 12] = [0x72, 0x61, 0x77, 0x5f, 0x6f, 0x66, 0x66, 0x73, 0x65, 0x74, 0x3a, 0x20];
    assert(unixtime@ =~= unixtime_prefix());
    assert(raw_offset@ =~= raw_offset_prefix());
    if has_prefix(trimmed, unixtime.as_slice()) {
        let rest = slice_subrange(trimmed, 10, end);
        assert(rest@ =~= trimmed@.skip(10));
        if rest.len() > 0 && rest[0] == 0x2d {
            return Err(Error::ParseInt);
        }
        match parse_integer(rest, 0, u64::MAX as i128) {
            Some(t) => Ok((Some(t as u64), found.1)),
            None => Err(Error::ParseInt),
        }
    } else if has_prefix(trimmed, raw_offset.as_slice()) {
        let rest = slice_subrange(trimmed, 12, end);
        assert(rest@ =~= trimmed@.skip(12));
        match parse_integer(rest, i32::MIN as i128, i32::MAX as i128) {
            Some(o) => Ok((found.0, Some(o as i32))),
            None => Err(Error::ParseInt),
        }
    } else {
        Ok(found)
    }
}

/// An optional `u64` as an optional integer
pub open spec fn opt_int(v: Option<u64>) -> Option<int> {
    match v {
        Some(x) => Some(x as int),
        None => None,
    }
}

/// An optional `i32` as an optional integer
pub open spec fn opt_int32(v: Option<i32>) -> Option<int> {
    match v {
        Some(x) => Some(x as int),
        None => None,
    }
}

/// Parse the answer of a time service that sends `unixtime: ` and
/// `raw_offset: ` lines; the last of each counts
pub fn parse_world_time_response(body: &[u8]) -> (r: Result<WallTime, Error>)
    ensures
        r == world_time_answer(body@),
{
    parse_world_time_text(body, is_utf8(body))
}

/// Read the answer of a time service that sends `unixtime: ` and
/// `raw_offset: ` lines, given whether it is valid UTF-8
pub fn parse_world_time_text(body: &[u8], utf8: bool) -> (r: Result<WallTime, Error>)
    ensures
        r == lined_text(body@, utf8),
{
    if !utf8 {
        return Err(Error::Utf8);
    }
    let n = body.len();
    let mut found: (Option<u64>, Option<i32>) = (None, None);
    let mut line_start: usize = 0;
    let mut i: usize = 0;
    let ghost mut done: Seq<Seq<u8>> = Seq::empty();
    assert(body@.take(0) =~= Seq::<u8>::empty());
    assert(split_lines(body@.take(0)) =~= done.push(body@.subrange(0, 0)));
    while i < n
        invariant
            utf8,
            line_start <= i <= n,
            n == body@.len(),
            split_lines(body@.take(i as int)) == done.push(body@.subrange(line_start as int, i as int)),
            read_lines(done) == Ok::<(Option<int>, Option<int>), Error>(
                (opt_int(found.0), opt_int32(found.1)),
            ),
        decreases n - i,
    {
        let b = body[i];
        proof {
            assert(body@.take(i + 1).drop_last() =~= body@.take(i as int));
            assert(body@.take(i + 1).last() == b);
        }
        if b == 0x0a {
            let line = slice_subrange(body, line_start, i);
            match read_answer_line(line, found) {
                Ok(next) => {
                    proof {
                        let finished = done.push(line@);
                        assert(finished.drop_last() =~= done);
                        done = finished;
                        assert(body@.subrange(i + 1, i + 1) =~= Seq::<u8>::empty());
                    }
                    found = next;
                    line_start = i + 1;
                },
                Err(e) => {
                    proof {
                        let finished = done.push(line@);
                        assert(finished.drop_last() =~= done);
                        assert(split_lines(body@.take(i + 1)) == finished.push(Seq::<u8>::empty()));
                        lemma_split_lines_prefix(body@, i + 1, n as int);
                        assert(body@.take(n as int) =~= body@);
                        assert(split_lines(body@).take(finished.len() as int) =~= finished);
                        assert(read_lines(finished) == Err::<(Option<int>, Option<int>), Error>(e));
                        lemma_read_lines_error_persists(split_lines(body@), finished.len() as int);
                        assert(read_lines(split_lines(body@)) == Err::<(Option<int>, Option<int>), Error>(e));
                    }
                    return Err(e);
                },
            }
        } else {
            proof {
                let cur = body@.subrange(line_start as int, i as int);
                assert(body@.subrange(line_start as int, i + 1) =~= cur.push(b));
                assert(done.push(cur).update(done.len() as int, cur.push(b)) =~= done.push(cur.push(b)));
            }
        }
        i = i + 1;
    }
    let last = slice_subrange(body, line_start, n);
    assert(body@.take(n as int) =~= body@);
    let fields = read_answer_line(last, found);
    proof {
        let all = done.push(last@);
        assert(all.drop_last() =~= done);
    }
    match fields {
        Err(e) => Err(e),
        Ok((Some(t), Some(o))) => {
            if utc_offset_from_seconds(o).is_none() || t > i64::MAX as u64 {
                Err(Error::TimeComponentRange)
            } else if utc_from_unix_timestamp(t as i64).is_none() {
                Err(Error::TimeComponentRange)
            } else if fits_in_offset(t as i64, o) {
                Ok(WallTime { unix_timestamp: t as i64, offset_seconds: o })
            } else {
                Err(Error::InvalidInOffset)
            }
        },
        Ok(_) => Err(Error::Unknown),
    }
}

/// Reading more bytes only extends the last line or adds lines: every line
/// before the last stays as it was
proof fn lemma_split_lines_prefix(s: Seq<u8>, i: int, j: int)
    requires
        0 <= i <= j <= s.len(),
    ensures
        split_lines(s.take(j)).len() >= split_lines(s.take(i)).len(),
        forall|k: int|
            0 <= k < split_lines(s.take(i)).len() - 1 ==> #[trigger] split_lines(s.take(j))[k]
                == split_lines(s.take(i))[k],
    decreases j - i,
{
    if j > i {
        lemma_split_lines_prefix(s, i, j - 1);
        assert(s.take(j).drop_last() =~= s.take(j - 1));
        lemma_split_lines_nonempty(s.take(j - 1));
    }
}

/// An error in a line ends the reading: the lines after it do not matter
proof fn lemma_read_lines_error_persists(lines: Seq<Seq<u8>>, k: int)
    requires
        0 < k <= lines.len(),
        read_lines(lines.take(k)) is Err,
    ensures
        read_lines(lines) == read_lines(lines.take(k)),
    decreases lines.len(),
{
    if lines.len() == k {
        assert(lines.take(k) =~= lines);
    } else {
        assert(lines.drop_last().take(k) =~= lines.take(k));
        lemma_read_lines_error_persists(lines.drop_last(), k);
    }
}

} // verus!
