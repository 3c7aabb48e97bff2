//! Ranges given on a command line, written `start..end` or as one value, and
//! values drawn from them.

use humantime::DurationError as Fault;
use rand::Rng;
use vstd::prelude::*;

verus! {

/// A range from `start` up to, and without, `end`. With `start == end` it
/// stands for that one value.
#[derive(Copy, Clone, Debug)]
pub struct CliRange<T> {
    pub start: T,
    pub end: T,
}

/// A length of time: whole seconds and the nanoseconds beyond them.
#[derive(Clone, Copy, Debug, PartialEq, Eq, Structural)]
pub struct Span {
    pub secs: u64,
    pub nanos: u32,
}

/// Why a text is not an unsigned number.
#[derive(Clone, Copy, Debug, PartialEq, Eq, Structural)]
pub enum NumberError {
    /// The text is empty.
    Empty,
    /// A character that is no decimal digit, or a plus sign with nothing
    /// behind it.
    InvalidDigit,
    /// The number does not fit into 64 bits.
    PosOverflow,
}

/// Why a text is not a length of time.
#[derive(Clone, Debug, PartialEq, Eq)]
pub enum DurationError {
    /// A character that no duration holds, at this byte offset.
    InvalidCharacter { offset: usize },
    /// Something else where a number had to stand, at this byte offset.
    NumberExpected { offset: usize },
    /// The unknown unit `unit`, which stands between these byte offsets
    /// behind the number `value`.
    UnknownUnit { start: usize, end: usize, unit: String, value: u64 },
    /// A number too large, or finer than a nanosecond.
    NumberOverflow,
    /// No duration at all.
    Empty,
}

/// Why a text is not a range.
#[derive(Clone, Debug, PartialEq, Eq)]
pub enum RangeError {
    /// A bound is not an unsigned number.
    Number(NumberError),
    /// A bound is not a length of time.
    Duration(DurationError),
    /// A bound that is to be a length of time holds more decimal digits than
    /// are read: more than [`MAX_DURATION_DIGITS`].
    TooManyDigits,
}

/// The most decimal digits that a text may hold to be read as a length of
/// time. The largest unit is the year of 31,557,600 seconds, so the numbers
/// of such a text together stand for fewer than 2^64 seconds.
pub const MAX_DURATION_DIGITS: usize = 11;

/// Two dots stand at `i` and `i + 1`.
pub open spec fn dots_at(s: Seq<char>, i: int) -> bool {
    0 <= i && i + 1 < s.len() && s[i] == '.' && s[i + 1] == '.'
}

/// `i` is the first place where two dots stand.
pub open spec fn first_dots_at(s: Seq<char>, i: int) -> bool {
    dots_at(s, i) && forall|j: int| 0 <= j < i ==> !dots_at(s, j)
}

/// `c` is a decimal digit.
pub open spec fn is_digit(c: char) -> bool {
    '0' <= c <= '9'
}

/// The value of the digit `c`.
pub open spec fn digit_of(c: char) -> nat {
    if is_digit(c) {
        (c as u32 - '0' as u32) as nat
    } else {
        0
    }
}

/// The value of `s` read as decimal digits from left to right, or what
/// stops the reading first: a character that is no digit, or a value that no
/// longer fits into 64 bits.
pub open spec fn digits_value(s: Seq<char>) -> Result<nat, NumberError>
    decreases s.len(),
{
    if s.len() == 0 {
        Ok(0)
    } else {
        match digits_value(s.drop_last()) {
            Err(e) => Err(e),
            Ok(v) => if !is_digit(s.last()) {
                Err(NumberError::InvalidDigit)
            } else if v * 10 + digit_of(s.last()) > u64::MAX {
                Err(NumberError::PosOverflow)
            } else {
                Ok(v * 10 + digit_of(s.last()))
            },
        }
    }
}

/// The digits of a number text: what stands behind an optional plus sign.
pub open spec fn number_body(s: Seq<char>) -> Seq<char> {
    if s.len() > 0 && s[0] == '+' {
        s.drop_first()
    } else {
        s
    }
}

/// The number that `s` stands for: an optional plus sign, then one or more
/// decimal digits and nothing else, with a value that fits.
pub open spec fn number(s: Seq<char>) -> Result<u64, NumberError> {
    if s.len() == 0 {
        Err(NumberError::Empty)
    } else if number_body(s).len() == 0 {
        Err(NumberError::InvalidDigit)
    } else {
        match digits_value(number_body(s)) {
            Ok(v) => Ok(v as u64),
            Err(e) => Err(e),
        }
    }
}

/// How many decimal digits `s` holds.
pub open spec fn digit_count(s: Seq<char>) -> nat
    decreases s.len(),
{
    if s.len() == 0 {
        0
    } else if is_digit(s.last()) {
        digit_count(s.drop_last()) + 1
    } else {
        digit_count(s.drop_last())
    }
}

/// What `humantime::parse_duration` makes of a text: the length it reads, or
/// why it reads none.
pub uninterp spec fn parsed_duration(s: Seq<char>) -> Result<Span, DurationError>;

/// The range made of the bounds as they were read: the first bound that
/// failed decides, and a single value is both bounds.
pub open spec fn range_of<T, E>(start: Result<T, E>, end: Option<Result<T, E>>) -> Result<
    CliRange<T>,
    E,
> {
    match start {
        Err(e) => Err(e),
        Ok(start) => match end {
            None => Ok(CliRange { start, end: start }),
            Some(Err(e)) => Err(e),
            Some(Ok(end)) => Ok(CliRange { start, end }),
        },
    }
}

/// What a bound gives that is to be a length of time: the text is read only
/// where it holds no more than [`MAX_DURATION_DIGITS`] digits.
pub open spec fn span(s: Seq<char>) -> Result<Span, RangeError> {
    if digit_count(s) > MAX_DURATION_DIGITS {
        Err(RangeError::TooManyDigits)
    } else {
        match parsed_duration(s) {
            Ok(v) => Ok(v),
            Err(e) => Err(RangeError::Duration(e)),
        }
    }
}

/// What a bound gives that is to be a number.
pub open spec fn number_bound(s: Seq<char>) -> Result<u64, RangeError> {
    match number(s) {
        Ok(v) => Ok(v),
        Err(e) => Err(RangeError::Number(e)),
    }
}

/// The two parts of a range text: what stands before the first two dots and
/// what stands behind them, or the whole text where there are none.
pub open spec fn is_split(s: Seq<char>, head: Seq<char>, tail: Option<Seq<char>>) -> bool {
    match tail {
        Some(tail) => exists|i: int|
            #[trigger] first_dots_at(s, i) && head == s.subrange(0, i) && tail == s.subrange(
                i + 2,
                s.len() as int,
            ),
        None => head == s && forall|i: int| !dots_at(s, i),
    }
}

/// `r` is what the text `s` gives as a range of numbers: its two parts,
/// each read as a number, made into a range.
pub open spec fn is_number_range(s: Seq<char>, r: Result<CliRange<u64>, RangeError>) -> bool {
    exists|head: Seq<char>, tail: Option<Seq<char>>| #[trigger]
        is_split(s, head, tail) && r == range_of(
            number_bound(head),
            match tail {
                Some(tail) => Some(number_bound(tail)),
                None => None,
            },
        )
}

/// `r` is what the text `s` gives as a range of lengths of time: its two
/// parts, each read as a length of time, made into a range.
pub open spec fn is_span_range(s: Seq<char>, r: Result<CliRange<Span>, RangeError>) -> bool {
    exists|head: Seq<char>, tail: Option<Seq<char>>| #[trigger]
        is_split(s, head, tail) && r == range_of(
            span(head),
            match tail {
                Some(tail) => Some(span(tail)),
                None => None,
            },
        )
}

/// Where the reading of a prefix stops, the reading of the whole stops for
/// the same reason.
proof fn lemma_digits_value_stops(s: Seq<char>, k: int)
    requires
        0 <= k <= s.len(),
        digits_value(s.take(k)) is Err,
    ensures
        digits_value(s) == digits_value(s.take(k)),
    decreases s.len() - k,
{
    if k < s.len() {
        assert(s.take(k + 1).drop_last() =~= s.take(k));
        lemma_digits_value_stops(s, k + 1);
    } else {
        assert(s.take(k) =~= s);
    }
}

/// Draws a number from `low` up to, and without, `high`.
///
/// Trusted: the body calls `rand::Rng::gen_range` on the generator that
/// `rand::thread_rng` hands out. That function panics on an empty range,
/// which `requires` leaves out, and returns a value inside the range it is
/// given. Which value is not stated: it is drawn at random.
#[verifier::external_body]
fn draw(low: u128, high: u128) -> (r: u128)
    requires
        low < high,
    ensures
        low <= r < high,
{
    rand::thread_rng().gen_range(low..high)
}

/// Reads `s` as a length of time.
///
/// Trusted: the body calls `humantime::parse_duration`, whose answer depends
/// on the text alone and is named [`parsed_duration`]. A length is handed on
/// as its whole seconds and the nanoseconds beyond them, an error variant by
/// variant with everything it carries.
///
/// That function adds up seconds with checked arithmetic, but hands a sum of
/// exactly one billion nanoseconds on to `Duration::new`, which panics where
/// the carry overflows the seconds. `requires` leaves such texts out: every
/// number of the text is multiplied by 31,557,600 at most, so with no more
/// than eleven digits in all the seconds stay below 2^64.
#[verifier::external_body]
fn parse_duration(s: &str) -> (r: Result<Span, DurationError>)
    requires
        digit_count(s@) <= MAX_DURATION_DIGITS,
    ensures
        r == parsed_duration(s@),
{
    match humantime::parse_duration(s) {
        Ok(d) => Ok(Span { secs: d.as_secs(), nanos: d.subsec_nanos() }),
        Err(Fault::InvalidCharacter(offset)) => Err(DurationError::InvalidCharacter { offset }),
        Err(Fault::NumberExpected(offset)) => Err(DurationError::NumberExpected { offset }),
        Err(Fault::UnknownUnit { start, end, unit, value }) => Err(DurationError::UnknownUnit { start, end, unit, value }),
        Err(Fault::NumberOverflow) => Err(DurationError::NumberOverflow),
        Err(Fault::Empty) => Err(DurationError::Empty),
    }
}

/// Draws a number from `low` up to, and without, `high`.
fn draw_number(low: u64, high: u64) -> (r: u64)
    requires
        low < high,
    ensures
        low <= r < high,
{
    draw(low as u128, high as u128) as u64
}

/// Splits a range text at its first two dots.
pub fn split_range(s: &str) -> (r: (&str, Option<&str>))
    ensures
        is_split(
            s@,
            r.0@,
            match r.1 {
                Some(tail) => Some(tail@),
                None => None,
            },
        ),
{
    let n = s.unicode_len();
    if n < 2 {
        return (s, None);
    }
    let mut i: usize = 0;
    while i < n - 1
        invariant
            2 <= n == s@.len(),
            i <= n - 1,
            forall|j: int| 0 <= j < i ==> !dots_at(s@, j),
        decreases n - i,
    {
        if s.get_char(i) == '.' && s.get_char(i + 1) == '.' {
            let head = s.substring_char(0, i);
            let tail = s.substring_char(i + 2, n);
            assert(first_dots_at(s@, i as int));
            return (head, Some(tail));
        }
        i += 1;
    }
    (s, None)
}

/// Reads `s` as an unsigned number.
pub fn parse_number(s: &str) -> (r: Result<u64, NumberError>)
    ensures
        r == number(s@),
{
    let n = s.unicode_len();
    if n == 0 {
        return Err(NumberError::Empty);
    }
    let start: usize = if s.get_char(0) == '+' {
        1
    } else {
        0
    };
    let ghost body = number_body(s@);
    if start == n {
        return Err(NumberError::InvalidDigit);
    }
    let mut value: u64 = 0;
    let mut i: usize = start;
    assert(body.take(0) =~= Seq::<char>::empty());
    while i < n
        invariant
            start <= i <= n,
            n == s@.len(),
            body == number_body(s@),
            body.len() == n - start,
            forall|k: int| 0 <= k < body.len() ==> body[k] == s@[k + start],
            digits_value(body.take(i - start)) == Ok::<nat, NumberError>(value as nat),
        decreases n - i,
    {
        let c = s.get_char(i);
        proof {
            assert(body.take(i - start + 1).drop_last() =~= body.take(i - start));
            assert(body.take(i - start + 1).last() == c);
        }
        if !(c >= '0' && c <= '9') {
            proof {
                lemma_digits_value_stops(body, i - start + 1);
            }
            return Err(NumberError::InvalidDigit);
        }
        let d: u64 = (c as u32 - '0' as u32) as u64;
        let next = match value.checked_mul(10) {
            Some(v) => v.checked_add(d),
            None => None,
        };
        match next {
            Some(v) => {
                value = v;
            },
            None => {
                proof {
                    lemma_digits_value_stops(body, i - start + 1);
                }
                return Err(NumberError::PosOverflow);
            },
        }
        i += 1;
    }
    assert(body.take(i - start) =~= body);
    Ok(value)
}

/// Counts the decimal digits of `s`.
pub fn count_digits(s: &str) -> (r: usize)
    ensures
        r == digit_count(s@),
{
    let n = s.unicode_len();
    let mut count: usize = 0;
    let mut i: usize = 0;
    assert(s@.take(0) =~= Seq::<char>::empty());
    while i < n
        invariant
            i <= n,
            n == s@.len(),
            count <= i,
            count == digit_count(s@.take(i as int)),
        decreases n - i,
    {
        let c = s.get_char(i);
        assert(s@.take(i + 1).drop_last() =~= s@.take(i as int));
        if c >= '0' && c <= '9' {
            count += 1;
        }
        i += 1;
    }
    assert(s@.take(i as int) =~= s@);
    count
}

/// Reads a bound that is to be a length of time. A text with more than
/// [`MAX_DURATION_DIGITS`] digits is not read.
pub fn parse_span(s: &str) -> (r: Result<Span, RangeError>)
    ensures
        r == span(s@),
{
    if count_digits(s) > MAX_DURATION_DIGITS {
        return Err(RangeError::TooManyDigits);
    }
    match parse_duration(s) {
        Ok(v) => Ok(v),
        Err(e) => Err(RangeError::Duration(e)),
    }
}

/// Reads a bound that is to be a number.
pub fn parse_number_bound(s: &str) -> (r: Result<u64, RangeError>)
    ensures
        r == number_bound(s@),
{
    match parse_number(s) {
        Ok(v) => Ok(v),
        Err(e) => Err(RangeError::Number(e)),
    }
}

impl Span {
    /// The length in nanoseconds.
    pub open spec fn total(self) -> nat {
        self.secs as nat * 1_000_000_000 + self.nanos as nat
    }

    /// The length in nanoseconds.
    pub fn as_nanos(&self) -> (r: u128)
        ensures
            r == self.total(),
    {
        self.secs as u128 * 1_000_000_000 + self.nanos as u128
    }
}

/// The nanoseconds of a length of time as they fit into 64 bits: what lies
/// above is cut off.
pub open spec fn cut(nanos: nat) -> u64 {
    (nanos % 0x1_0000_0000_0000_0000) as u64
}

/// Cuts a number of nanoseconds down to 64 bits.
pub fn cut_nanos(nanos: u128) -> (r: u64)
    ensures
        r == cut(nanos as nat),
{
    let r = (nanos % 0x1_0000_0000_0000_0000) as u64;
    r
}

impl<T: Copy> CliRange<T> {
    /// The range made of bounds as they were read.
    pub fn from_bounds<E>(start: Result<T, E>, end: Option<Result<T, E>>) -> (r: Result<
        CliRange<T>,
        E,
    >)
        ensures
            r == range_of(start, end),
    {
        match start {
            Err(e) => Err(e),
            Ok(start) => match end {
                None => Ok(CliRange { start, end: start }),
                Some(Err(e)) => Err(e),
                Some(Ok(end)) => Ok(CliRange { start, end }),
            },
        }
    }
}

impl CliRange<u64> {
    /// Reads a range of numbers, `start..end` or one number.
    pub fn from_str(s: &str) -> (r: Result<CliRange<u64>, RangeError>)
        ensures
            is_number_range(s@, r),
    {
        let (head, tail) = split_range(s);
        let start = parse_number_bound(head);
        let end = match tail {
            Some(tail) => Some(parse_number_bound(tail)),
            None => None,
        };
        CliRange::from_bounds(start, end)
    }

    /// A value of the range: its one value, or what `draw` picks between
    /// `start` and `end`. `draw` is asked only where there is a choice.
    pub fn gen_with<F: FnOnce(u64, u64) -> u64>(&self, draw: F) -> (r: u64)
        requires
            self.start <= self.end,
            self.start < self.end ==> draw.requires((self.start, self.end)),
        ensures
            self.start == self.end ==> r == self.start,
            self.start < self.end ==> draw.ensures((self.start, self.end), r),
    {
        if self.start == self.end {
            return self.start;
        }
        draw(self.start, self.end)
    }

    /// A value of the range: its one value, or a number drawn at random from
    /// `start` up to, and without, `end`.
    pub fn gen(&self) -> (r: u64)
        requires
            self.start <= self.end,
        ensures
            self.start == self.end ==> r == self.start,
            self.start < self.end ==> self.start <= r < self.end,
    {
        self.gen_with(draw_number)
    }
}

impl CliRange<Span> {
    /// Reads a range of lengths of time, `start..end` or one length.
    pub fn from_str(s: &str) -> (r: Result<CliRange<Span>, RangeError>)
        ensures
            is_span_range(s@, r),
    {
        let (head, tail) = split_range(s);
        let start = parse_span(head);
        let end = match tail {
            Some(tail) => Some(parse_span(tail)),
            None => None,
        };
        CliRange::from_bounds(start, end)
    }

    /// A length of the range in nanoseconds, cut down to 64 bits: its one
    /// length, or what `draw` picks between the nanoseconds of `start` and
    /// those of `end`. `draw` is asked only where there is a choice.
    pub fn gen_duration_with<F: FnOnce(u128, u128) -> u128>(&self, draw: F) -> (r: u64)
        requires
            self.start.total() <= self.end.total(),
            self.start.total() < self.end.total() ==> draw.requires(
                (self.start.total() as u128, self.end.total() as u128),
            ),
        ensures
            self.start.total() == self.end.total() ==> r == cut(self.start.total()),
            self.start.total() < self.end.total() ==> exists|nanos: u128|
                draw.ensures((self.start.total() as u128, self.end.total() as u128), nanos) && r
                    == #[trigger] cut(nanos as nat),
    {
        let start = self.start.as_nanos();
        let end = self.end.as_nanos();
        if start == end {
            return cut_nanos(start);
        }
        let nanos = draw(start, end);
        cut_nanos(nanos)
    }

    /// A length of the range in nanoseconds, cut down to 64 bits: its one
    /// length, or one drawn at random from `start` up to, and without, `end`.
    pub fn gen_duration(&self) -> (r: u64)
        requires
            self.start.total() <= self.end.total(),
        ensures
            self.start.total() == self.end.total() ==> r == cut(self.start.total()),
            self.start.total() < self.end.total() ==> exists|nanos: nat|
                self.start.total() <= nanos < self.end.total() && r == #[trigger] cut(nanos),
    {
        self.gen_duration_with(draw)
    }
}

impl core::str::FromStr for CliRange<u64> {
    type Err = RangeError;

    fn from_str(s: &str) -> (r: Result<Self, RangeError>)
        ensures
            is_number_range(s@, r),
    {
        CliRange::<u64>::from_str(s)
    }
}

impl core::str::FromStr for CliRange<Span> {
    type Err = RangeError;

    fn from_str(s: &str) -> (r: Result<Self, RangeError>)
        ensures
            is_span_range(s@, r),
    {
        CliRange::<Span>::from_str(s)
    }
}

} // verus!
