//! The vector parser: one coordinate-section line becomes an epoch timestamp
//! and three position components, or a typed per-line failure.

use vstd::prelude::*;
use crate::text::char_seqs;
use crate::text::string_of;

verus! {

/// A decimal digit.
pub open spec fn is_digit(c: char) -> bool {
    '0' as int <= c as int && c as int <= '9' as int
}

/// Value of a decimal digit character.
pub open spec fn digit_val(c: char) -> int {
    c as int - '0' as int
}

fn is_digit_exec(c: char) -> (r: bool)
    ensures
        r == is_digit(c),
{
    let u = c as u32;
    48 <= u && u <= 57
}

fn dval(c: char) -> (r: u32)
    requires
        is_digit(c),
    ensures
        r as int == digit_val(c),
        r <= 9,
{
    (c as u32) - 48
}

/// Character class of position `i` in the fixed timestamp pattern
/// `YYYY-MM-DDTHH:MM:SS.sss`.
pub open spec fn ts_char_ok(t: Seq<char>, i: int) -> bool {
    if i == 4 || i == 7 {
        t[i] == '-'
    } else if i == 10 {
        t[i] == 'T'
    } else if i == 13 || i == 16 {
        t[i] == ':'
    } else if i == 19 {
        t[i] == '.'
    } else {
        is_digit(t[i])
    }
}

/// The token has the shape of the fixed timestamp pattern.
pub open spec fn timestamp_shape(t: Seq<char>) -> bool {
    t.len() == 23 && forall|i: int| 0 <= i < 23 ==> ts_char_ok(t, i)
}

pub open spec fn two_digits(t: Seq<char>, i: int) -> int {
    10 * digit_val(t[i]) + digit_val(t[i + 1])
}

pub open spec fn year_of(t: Seq<char>) -> int {
    1000 * digit_val(t[0]) + 100 * digit_val(t[1]) + 10 * digit_val(t[2]) + digit_val(t[3])
}

pub open spec fn month_of(t: Seq<char>) -> int {
    two_digits(t, 5)
}

pub open spec fn day_of(t: Seq<char>) -> int {
    two_digits(t, 8)
}

pub open spec fn hour_of(t: Seq<char>) -> int {
    two_digits(t, 11)
}

pub open spec fn minute_of(t: Seq<char>) -> int {
    two_digits(t, 14)
}

pub open spec fn second_of(t: Seq<char>) -> int {
    two_digits(t, 17)
}

pub open spec fn millisecond_of(t: Seq<char>) -> int {
    100 * digit_val(t[20]) + 10 * digit_val(t[21]) + digit_val(t[22])
}

pub open spec fn is_leap_year(y: int) -> bool {
    (y % 4 == 0 && y % 100 != 0) || y % 400 == 0
}

pub open spec fn days_in_month(y: int, m: int) -> int {
    if m == 2 {
        if is_leap_year(y) {
            29
        } else {
            28
        }
    } else if m == 4 || m == 6 || m == 9 || m == 11 {
        30
    } else {
        31
    }
}

/// The token is a calendar-valid timestamp of the fixed pattern.
pub open spec fn is_timestamp(t: Seq<char>) -> bool {
    &&& timestamp_shape(t)
    &&& 1 <= month_of(t) <= 12
    &&& 1 <= day_of(t) <= days_in_month(year_of(t), month_of(t))
    &&& hour_of(t) <= 23
    &&& minute_of(t) <= 59
    &&& second_of(t) <= 59
}

/// An epoch: a calendar date and time of day with an explicit fixed UTC
/// offset of zero, millisecond precision.
#[derive(Clone, Copy, PartialEq, Eq, Structural, Debug)]
pub struct Epoch {
    pub year: u16,
    pub month: u8,
    pub day: u8,
    pub hour: u8,
    pub minute: u8,
    pub second: u8,
    pub millisecond: u16,
}

/// The epoch a valid timestamp token denotes.
pub open spec fn spec_epoch(t: Seq<char>) -> Epoch {
    Epoch {
        year: year_of(t) as u16,
        month: month_of(t) as u8,
        day: day_of(t) as u8,
        hour: hour_of(t) as u8,
        minute: minute_of(t) as u8,
        second: second_of(t) as u8,
        millisecond: millisecond_of(t) as u16,
    }
}

/// A calendar-valid epoch.
pub open spec fn epoch_valid(e: Epoch) -> bool {
    &&& e.year <= 9999
    &&& 1 <= e.month <= 12
    &&& 1 <= e.day <= days_in_month(e.year as int, e.month as int)
    &&& e.hour <= 23
    &&& e.minute <= 59
    &&& e.second <= 59
    &&& e.millisecond <= 999
}

fn days_in_month_exec(y: u32, m: u32) -> (r: u32)
    ensures
        r as int == days_in_month(y as int, m as int),
{
    if m == 2 {
        if (y % 4 == 0 && y % 100 != 0) || y % 400 == 0 {
            29
        } else {
            28
        }
    } else if m == 4 || m == 6 || m == 9 || m == 11 {
        30
    } else {
        31
    }
}

/// Parses one token against the fixed pattern `YYYY-MM-DDTHH:MM:SS.sss`,
/// including calendar validity.
pub fn parse_timestamp(t: &Vec<char>) -> (r: Option<Epoch>)
    ensures
        r is Some <==> is_timestamp(t@),
        r is Some ==> r->0 == spec_epoch(t@) && epoch_valid(r->0),
{
    if t.len() != 23 {
        return None;
    }
    let mut i: usize = 0;
    while i < 23
        invariant
            t@.len() == 23,
            i <= 23,
            forall|k: int| 0 <= k < i ==> ts_char_ok(t@, k),
        decreases 23 - i,
    {
        let c = t[i];
        let good: bool = if i == 4 || i == 7 {
            c == '-'
        } else if i == 10 {
            c == 'T'
        } else if i == 13 || i == 16 {
            c == ':'
        } else if i == 19 {
            c == '.'
        } else {
            is_digit_exec(c)
        };
        if !good {
            proof {
                assert(!ts_char_ok(t@, i as int));
            }
            return None;
        }
        i += 1;
    }
    proof {
        assert(timestamp_shape(t@));
        assert(ts_char_ok(t@, 0) && ts_char_ok(t@, 1) && ts_char_ok(t@, 2) && ts_char_ok(t@, 3));
        assert(ts_char_ok(t@, 5) && ts_char_ok(t@, 6) && ts_char_ok(t@, 8) && ts_char_ok(t@, 9));
        assert(ts_char_ok(t@, 11) && ts_char_ok(t@, 12) && ts_char_ok(t@, 14) && ts_char_ok(
            t@,
            15,
        ));
        assert(ts_char_ok(t@, 17) && ts_char_ok(t@, 18) && ts_char_ok(t@, 20) && ts_char_ok(
            t@,
            21,
        ) && ts_char_ok(t@, 22));
    }
    let year: u32 = 1000 * dval(t[0]) + 100 * dval(t[1]) + 10 * dval(t[2]) + dval(t[3]);
    let month: u32 = 10 * dval(t[5]) + dval(t[6]);
    let day: u32 = 10 * dval(t[8]) + dval(t[9]);
    let hour: u32 = 10 * dval(t[11]) + dval(t[12]);
    let minute: u32 = 10 * dval(t[14]) + dval(t[15]);
    let second: u32 = 10 * dval(t[17]) + dval(t[18]);
    let millisecond: u32 = 100 * dval(t[20]) + 10 * dval(t[21]) + dval(t[22]);
    if month < 1 || month > 12 {
        return None;
    }
    if day < 1 || day > days_in_month_exec(year, month) {
        return None;
    }
    if hour > 23 || minute > 59 || second > 59 {
        return None;
    }
    Some(
        Epoch {
            year: year as u16,
            month: month as u8,
            day: day as u8,
            hour: hour as u8,
            minute: minute as u8,
            second: second as u8,
            millisecond: millisecond as u16,
        },
    )
}

/// Length of the run of digits in `s` starting at `i`.
pub open spec fn digit_run(s: Seq<char>, i: int) -> int
    decreases s.len() - i,
{
    if i < 0 || i >= s.len() || !is_digit(s[i]) {
        0
    } else {
        1 + digit_run(s, i + 1)
    }
}

/// The digit run ends exactly where the scan says it does.
pub proof fn lemma_digit_run_is(s: Seq<char>, i: int, j: int)
    requires
        0 <= i <= j <= s.len(),
        forall|k: int| i <= k < j ==> is_digit(s[k]),
        j == s.len() || !is_digit(s[j]),
    ensures
        digit_run(s, i) == j - i,
    decreases j - i,
{
    if i == j {
    } else {
        lemma_digit_run_is(s, i + 1, j);
    }
}

fn count_digits(t: &Vec<char>, from: usize) -> (r: usize)
    requires
        from <= t@.len(),
    ensures
        from + r <= t@.len(),
        r as int == digit_run(t@, from as int),
{
    let mut j: usize = from;
    while j < t.len() && is_digit_exec(t[j])
        invariant
            from <= j <= t@.len(),
            forall|k: int| from <= k < j ==> is_digit(t@[k]),
        decreases t.len() - j,
    {
        j += 1;
    }
    proof {
        lemma_digit_run_is(t@, from as int, j as int);
    }
    j - from
}

/// The token is a numeric field: an optional sign, then digits with an
/// optional fractional part (or a fractional part alone), then an optional
/// exponent with its own optional sign and digits.
pub open spec fn is_numeric_token(s: Seq<char>) -> bool {
    let len = s.len() as int;
    let start: int = if len > 0 && (s[0] == '+' || s[0] == '-') {
        1
    } else {
        0
    };
    let d1 = digit_run(s, start);
    let m_end: int = if d1 > 0 {
        if start + d1 < len && s[start + d1] == '.' {
            start + d1 + 1 + digit_run(s, start + d1 + 1)
        } else {
            start + d1
        }
    } else if start < len && s[start] == '.' && digit_run(s, start + 1) > 0 {
        start + 1 + digit_run(s, start + 1)
    } else {
        -1
    };
    if m_end < 0 {
        false
    } else if m_end == len {
        true
    } else if s[m_end] == 'e' || s[m_end] == 'E' {
        let e0: int = if m_end + 1 < len && (s[m_end + 1] == '+' || s[m_end + 1] == '-') {
            m_end + 2
        } else {
            m_end + 1
        };
        let de = digit_run(s, e0);
        de > 0 && e0 + de == len
    } else {
        false
    }
}

/// Checks a token against the numeric-field grammar.
pub fn is_numeric(t: &Vec<char>) -> (r: bool)
    ensures
        r == is_numeric_token(t@),
{
    let len = t.len();
    let start: usize = if len > 0 && (t[0] == '+' || t[0] == '-') {
        1
    } else {
        0
    };
    let d1 = count_digits(t, start);
    let m_end: usize = if d1 > 0 {
        if start + d1 < len && t[start + d1] == '.' {
            start + d1 + 1 + count_digits(t, start + d1 + 1)
        } else {
            start + d1
        }
    } else if start < len && t[start] == '.' && count_digits(t, start + 1) > 0 {
        start + 1 + count_digits(t, start + 1)
    } else {
        proof {
            assert(!is_numeric_token(t@));
        }
        return false;
    };
    if m_end == len {
        proof {
            assert(is_numeric_token(t@));
        }
        return true;
    }
    let c = t[m_end];
    if c == 'e' || c == 'E' {
        let e0: usize = if m_end + 1 < len && (t[m_end + 1] == '+' || t[m_end + 1] == '-') {
            m_end + 2
        } else {
            m_end + 1
        };
        let de = count_digits(t, e0);
        let res = de > 0 && e0 + de == len;
        proof {
            assert(res == is_numeric_token(t@));
        }
        res
    } else {
        proof {
            assert(!is_numeric_token(t@));
        }
        false
    }
}

/// The typed per-line failures of the vector parser.
#[derive(Clone, Copy, PartialEq, Eq, Structural, Debug)]
pub enum VectorError {
    /// Fewer than four tokens on a coordinate-section line.
    InsufficientFields,
    /// The first token does not match the timestamp pattern.
    MalformedTimestamp,
    /// One of the three position tokens is not a numeric field.
    MalformedNumber,
}

/// One parsed state vector of the output series.
#[derive(Clone, Debug)]
pub struct StateVector {
    /// 1-based, dense position in the series, assigned by the aggregator.
    pub sequence_number: usize,
    /// The timestamp of the line, at fixed UTC offset zero.
    pub epoch: Epoch,
    /// Position components in kilometers, as validated numeric fields.
    pub x: String,
    pub y: String,
    pub z: String,
}

/// Mathematical image of a state vector.
pub struct StateVectorView {
    pub sequence_number: int,
    pub epoch: Epoch,
    pub x: Seq<char>,
    pub y: Seq<char>,
    pub z: Seq<char>,
}

impl View for StateVector {
    type V = StateVectorView;

    open spec fn view(&self) -> StateVectorView {
        StateVectorView {
            sequence_number: self.sequence_number as int,
            epoch: self.epoch,
            x: self.x@,
            y: self.y@,
            z: self.z@,
        }
    }
}

/// An epoch and three position components, before a sequence number is
/// assigned.
pub struct ParsedVector {
    pub epoch: Epoch,
    pub x: String,
    pub y: String,
    pub z: String,
}

/// What the vector parser yields on a token sequence.
pub open spec fn spec_parse_vector(toks: Seq<Seq<char>>) -> Result<
    (Epoch, Seq<char>, Seq<char>, Seq<char>),
    VectorError,
> {
    if toks.len() < 4 {
        Err(VectorError::InsufficientFields)
    } else if !is_timestamp(toks[0]) {
        Err(VectorError::MalformedTimestamp)
    } else if !(is_numeric_token(toks[1]) && is_numeric_token(toks[2]) && is_numeric_token(
        toks[3],
    )) {
        Err(VectorError::MalformedNumber)
    } else {
        Ok((spec_epoch(toks[0]), toks[1], toks[2], toks[3]))
    }
}

/// Parses a coordinate-section line's tokens: the first token as the epoch,
/// the next three as position components; further tokens (the velocity
/// components) are accepted and discarded.
pub fn parse_vector_line(toks: &Vec<Vec<char>>) -> (r: Result<ParsedVector, VectorError>)
    ensures
        r is Ok <==> spec_parse_vector(char_seqs(toks@)) is Ok,
        r is Ok ==> {
            let parsed = spec_parse_vector(char_seqs(toks@))->Ok_0;
            &&& r->Ok_0.epoch == parsed.0
            &&& epoch_valid(r->Ok_0.epoch)
            &&& r->Ok_0.x@ == parsed.1
            &&& r->Ok_0.y@ == parsed.2
            &&& r->Ok_0.z@ == parsed.3
        },
        r is Err ==> r->Err_0 == spec_parse_vector(char_seqs(toks@))->Err_0,
{
    if toks.len() < 4 {
        return Err(VectorError::InsufficientFields);
    }
    match parse_timestamp(&toks[0]) {
        None => Err(VectorError::MalformedTimestamp),
        Some(epoch) => {
            if is_numeric(&toks[1]) && is_numeric(&toks[2]) && is_numeric(&toks[3]) {
                Ok(
                    ParsedVector {
                        epoch,
                        x: string_of(&toks[1]),
                        y: string_of(&toks[2]),
                        z: string_of(&toks[3]),
                    },
                )
            } else {
                Err(VectorError::MalformedNumber)
            }
        },
    }
}

} // verus!
