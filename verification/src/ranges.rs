//! Lists of numbers written as ranges, and ranges written out as lists.

use vstd::prelude::*;
use vstd::relations::sorted_by;
use vstd::relations::total_ordering;
use vstd::seq_lib::lemma_sorted_unique;
use vstd::string::*;
use crate::text::decimal;
use crate::text::push_char;
use crate::text::push_decimal;
use crate::text::to_decimal;
use crate::text::trim;
use crate::text::trimmed;

verus! {

/// The order of the numbers.
pub open spec fn at_most_u64() -> spec_fn(u64, u64) -> bool {
    |a: u64, b: u64| a <= b
}

/// `values` in ascending order.
pub open spec fn ascending(values: Seq<u64>) -> Seq<u64> {
    values.sort_by(at_most_u64())
}

/// From how many numbers on a run of consecutive numbers is written as a
/// range.
pub const RANGE_THRESHOLD: u64 = 6;

/// The entries for the consecutive numbers from `start` to `end`: one entry
/// `start-end` for a run of six or more, and else each number for itself.
pub open spec fn run_entries(start: u64, end: u64) -> Seq<Seq<char>> {
    if end - start + 1 >= RANGE_THRESHOLD {
        seq![decimal(start as nat) + seq!['-'] + decimal(end as nat)]
    } else {
        Seq::new((end - start + 1) as nat, |i: int| decimal((start + i) as nat))
    }
}

/// The entries for a run that began with `start` and has reached `prev`,
/// followed by the numbers `rest`. A number continues the run if it is the
/// successor of the one before it; any other number, so also a repeated one,
/// begins a new run.
pub open spec fn entries_from(start: u64, prev: u64, rest: Seq<u64>) -> Seq<Seq<char>>
    decreases rest.len(),
{
    if rest.len() == 0 {
        run_entries(start, prev)
    } else if rest[0] == prev + 1 {
        entries_from(start, rest[0], rest.skip(1))
    } else {
        run_entries(start, prev) + entries_from(rest[0], rest[0], rest.skip(1))
    }
}

/// The entries that stand for `values`: the values in ascending order, with
/// each run of six or more consecutive numbers drawn together into a range.
pub open spec fn range_entries(values: Seq<u64>) -> Seq<Seq<char>> {
    if values.len() == 0 {
        Seq::empty()
    } else {
        let sorted = ascending(values);
        entries_from(sorted[0], sorted[0], sorted.skip(1))
    }
}

/// `sort` of the standard library's slices, on numbers: afterwards the
/// vector holds the items it held before, in ascending order.
#[verifier::external_body]
fn sort_values(values: &mut Vec<u64>)
    ensures
        sorted_by(final(values)@, at_most_u64()),
        final(values)@.to_multiset() == old(values)@.to_multiset(),
{
    values.sort()
}

fn sorted_copy(values: &Vec<u64>) -> (sorted: Vec<u64>)
    ensures
        sorted@ == ascending(values@),
{
    let mut sorted = values.clone();
    sort_values(&mut sorted);
    proof {
        assert(total_ordering(at_most_u64()));
        values@.lemma_sort_by_ensures(at_most_u64());
        lemma_sorted_unique(sorted@, ascending(values@), at_most_u64());
    }
    sorted
}

fn push_run(entries: &mut Vec<String>, start: u64, end: u64)
    requires
        start <= end,
    ensures
        final(entries).deep_view() == old(entries).deep_view() + run_entries(start, end),
{
    let ghost before = entries.deep_view();
    if end - start >= RANGE_THRESHOLD - 1 {
        let mut entry = to_decimal(start as u128);
        push_char(&mut entry, '-');
        push_decimal(&mut entry, end as u128);
        entries.push(entry);
        assert(entries.deep_view() =~= before + seq![entries@.last()@]);
        assert(entries@.last()@ =~= decimal(start as nat) + seq!['-'] + decimal(end as nat));
    } else {
        let mut n = start;
        loop
            invariant_except_break
                entries.deep_view() == before + Seq::new(
                    (n - start) as nat,
                    |i: int| decimal((start + i) as nat),
                ),
            invariant
                start <= n <= end,
                end - start < RANGE_THRESHOLD - 1,
            ensures
                entries.deep_view() == before + run_entries(start, end),
            decreases end - n,
        {
            let ghost so_far = entries.deep_view();
            entries.push(to_decimal(n as u128));
            assert(entries.deep_view() =~= so_far + seq![entries@.last()@]);
            assert(entries.deep_view() =~= before + Seq::new(
                (n + 1 - start) as nat,
                |i: int| decimal((start + i) as nat),
            ));
            if n == end {
                break ;
            }
            n = n + 1;
        }
    }
}

/// Writes `range` as a list of entries: the numbers in ascending order, a
/// run of six or more consecutive numbers as one entry `first-last`.
pub fn range_formatted(range: &Vec<u64>) -> (entries: Vec<String>)
    ensures
        entries.deep_view() == range_entries(range@),
{
    let mut entries: Vec<String> = Vec::new();
    if range.len() == 0 {
        assert(entries.deep_view() =~= range_entries(range@));
        return entries;
    }
    let sorted = sorted_copy(range);
    proof {
        range@.lemma_sort_by_ensures(at_most_u64());
        vstd::seq_lib::to_multiset_len(range@);
        vstd::seq_lib::to_multiset_len(sorted@);
    }
    let mut start = sorted[0];
    let mut prev = sorted[0];
    let mut i: usize = 1;
    assert(entries.deep_view() + range_entries(range@) =~= range_entries(range@));
    while i < sorted.len()
        invariant
            1 <= i <= sorted.len(),
            sorted@ == ascending(range@),
            sorted_by(sorted@, at_most_u64()),
            start <= prev,
            prev == sorted@[i - 1],
            entries.deep_view() + entries_from(start, prev, sorted@.skip(i as int)) == range_entries(
                range@,
            ),
        decreases sorted.len() - i,
    {
        let num = sorted[i];
        let ghost rest = sorted@.skip(i as int);
        let ghost before = entries.deep_view();
        assert(rest[0] == num);
        assert(rest.skip(1) =~= sorted@.skip(i + 1));
        assert(at_most_u64()(sorted@[i - 1], sorted@[i as int]));
        if prev < u64::MAX && num == prev + 1 {
        } else {
            push_run(&mut entries, start, prev);
            assert(entries.deep_view() + entries_from(num, num, rest.skip(1)) =~= before + (run_entries(
                start,
                prev,
            ) + entries_from(num, num, rest.skip(1))));
            start = num;
        }
        prev = num;
        i = i + 1;
    }
    assert(sorted@.skip(sorted@.len() as int).len() == 0);
    push_run(&mut entries, start, prev);
    entries
}

/// The status codes as numbers of full width.
pub open spec fn widened(codes: Seq<u16>) -> Seq<u64> {
    codes.map_values(|code: u16| code as u64)
}

/// The status codes of `codes` as numbers of full width.
pub fn widen_codes(codes: &Vec<u16>) -> (values: Vec<u64>)
    ensures
        values@ == widened(codes@),
{
    let mut values: Vec<u64> = Vec::new();
    let mut i: usize = 0;
    while i < codes.len()
        invariant
            i <= codes.len(),
            values@ == widened(codes@.take(i as int)),
        decreases codes.len() - i,
    {
        values.push(codes[i] as u64);
        i = i + 1;
        assert(values@ =~= widened(codes@.take(i as int)));
    }
    assert(codes@.take(codes@.len() as int) =~= codes@);
    values
}

/// A number, or all numbers from a first to a last.
#[derive(Clone, Copy, Debug)]
pub enum RangeOrValue<T> {
    Single(T),
    Range(T, T),
}

/// A kind of number that a list of ranges can hold: an unsigned integer
/// with a largest value.
pub trait RangeNumber: Copy {
    /// The number that `self` stands for.
    spec fn number(self) -> nat;

    /// The largest number of this kind.
    spec fn largest() -> nat;

    /// The largest number of this kind.
    fn upper_bound() -> (max: u64)
        ensures
            max == Self::largest(),
    ;

    /// The number that `self` stands for.
    fn to_u64(self) -> (n: u64)
        ensures
            n == self.number(),
            n <= Self::largest(),
    ;

    /// The value that stands for `n`, if `n` is a number of this kind.
    fn from_u64(n: u64) -> (value: Option<Self>)
        ensures
            value is Some <==> n <= Self::largest(),
            value matches Some(v) ==> v.number() == n,
    ;
}

impl RangeNumber for u16 {
    open spec fn number(self) -> nat {
        self as nat
    }

    open spec fn largest() -> nat {
        u16::MAX as nat
    }

    fn upper_bound() -> (max: u64) {
        u16::MAX as u64
    }

    fn to_u64(self) -> (n: u64) {
        self as u64
    }

    fn from_u64(n: u64) -> (value: Option<u16>) {
        if n <= u16::MAX as u64 {
            Some(n as u16)
        } else {
            None
        }
    }
}

impl RangeNumber for u64 {
    open spec fn number(self) -> nat {
        self as nat
    }

    open spec fn largest() -> nat {
        u64::MAX as nat
    }

    fn upper_bound() -> (max: u64) {
        u64::MAX
    }

    fn to_u64(self) -> (n: u64) {
        self
    }

    fn from_u64(n: u64) -> (value: Option<u64>) {
        Some(n)
    }
}

/// The numbers from `first` to `last`, both included; none if `first` is the
/// larger.
pub open spec fn span(first: nat, last: nat) -> Seq<nat> {
    if first <= last {
        Seq::new((last - first + 1) as nat, |i: int| (first + i) as nat)
    } else {
        Seq::empty()
    }
}

/// The numbers that one item of a list stands for.
pub open spec fn item_numbers<T: RangeNumber>(item: RangeOrValue<T>) -> Seq<nat> {
    match item {
        RangeOrValue::Single(value) => seq![value.number()],
        RangeOrValue::Range(first, last) => span(first.number(), last.number()),
    }
}

/// The numbers that a list stands for: those of its items, in the order of
/// the list.
pub open spec fn expanded<T: RangeNumber>(input: Seq<RangeOrValue<T>>) -> Seq<nat>
    decreases input.len(),
{
    if input.len() == 0 {
        Seq::empty()
    } else {
        expanded(input.drop_last()) + item_numbers(input.last())
    }
}

/// The numbers of `values`.
pub open spec fn numbers_of<T: RangeNumber>(values: Seq<T>) -> Seq<nat> {
    values.map_values(|value: T| value.number())
}

/// Writes out a list of numbers and ranges as the list of its numbers.
pub fn expand_ranges<T: RangeNumber>(input: Vec<RangeOrValue<T>>) -> (values: Vec<T>)
    ensures
        numbers_of(values@) == expanded(input@),
{
    let mut values: Vec<T> = Vec::new();
    let mut i: usize = 0;
    assert(numbers_of(values@) =~= expanded(input@.take(0)));
    while i < input.len()
        invariant
            i <= input.len(),
            numbers_of(values@) == expanded(input@.take(i as int)),
        decreases input.len() - i,
    {
        let ghost before = numbers_of(values@);
        let ghost done = input@.take(i as int);
        let ghost next = input@.take(i + 1);
        assert(next.drop_last() =~= done);
        assert(next.last() == input@[i as int]);
        match input[i] {
            RangeOrValue::Single(value) => {
                values.push(value);
                assert(numbers_of(values@) =~= before + seq![value.number()]);
            },
            RangeOrValue::Range(first, last) => {
                let low = first.to_u64();
                let high = last.to_u64();
                if low <= high {
                    let mut n = low;
                    loop
                        invariant_except_break
                            numbers_of(values@) == before + span(low as nat, n as nat).drop_last(),
                        invariant
                            low <= n <= high,
                            high == last.number(),
                            high <= T::largest(),
                        ensures
                            numbers_of(values@) == before + span(low as nat, high as nat),
                        decreases high - n,
                    {
                        let ghost so_far = numbers_of(values@);
                        let value = T::from_u64(n).unwrap();
                        values.push(value);
                        assert(numbers_of(values@) =~= so_far + seq![n as nat]);
                        assert(numbers_of(values@) =~= before + span(low as nat, n as nat));
                        if n == high {
                            break ;
                        }
                        n = n + 1;
                        assert(span(low as nat, n as nat).drop_last() =~= span(
                            low as nat,
                            (n - 1) as nat,
                        ));
                    }
                } else {
                    assert(numbers_of(values@) =~= before + span(low as nat, high as nat));
                }
            },
        }
        i = i + 1;
    }
    assert(input@.take(input@.len() as int) =~= input@);
    values
}

/// Why a text is not a number.
#[derive(Clone, Copy, Debug, PartialEq, Eq, Structural)]
pub enum NumberError {
    /// The text is empty.
    Empty,
    /// The text holds something that is no digit, or only a sign.
    InvalidDigit,
    /// The number is larger than its kind allows.
    TooLarge,
}

impl NumberError {
    /// The error in words.
    pub open spec fn message(self) -> Seq<char> {
        match self {
            NumberError::Empty => "cannot parse integer from empty string"@,
            NumberError::InvalidDigit => "invalid digit found in string"@,
            NumberError::TooLarge => "number too large to fit in target type"@,
        }
    }

    pub fn as_str(&self) -> (message: &'static str)
        ensures
            message@ == self.message(),
    {
        match self {
            NumberError::Empty => "cannot parse integer from empty string",
            NumberError::InvalidDigit => "invalid digit found in string",
            NumberError::TooLarge => "number too large to fit in target type",
        }
    }
}

/// The value of the decimal digit `c`, if it is one.
pub open spec fn digit_value(c: char) -> Option<nat> {
    if '0' <= c <= '9' {
        Some((c as nat - '0' as nat) as nat)
    } else {
        None
    }
}

/// The number that the digits `text` add to `value`, read from left to
/// right, where no number may exceed `max`. The first character that is no
/// digit and the first digit that takes the number over `max` end the
/// reading, whichever comes first.
pub open spec fn digits_value(text: Seq<char>, value: nat, max: nat) -> Result<nat, NumberError>
    decreases text.len(),
{
    if text.len() == 0 {
        Ok(value)
    } else {
        match digit_value(text[0]) {
            None => Err(NumberError::InvalidDigit),
            Some(d) => if value * 10 + d > max {
                Err(NumberError::TooLarge)
            } else {
                digits_value(text.skip(1), value * 10 + d, max)
            },
        }
    }
}

/// The number that `text` denotes: decimal digits, at least one, with or
/// without a `+` before them. Nothing else may stand in the text.
pub open spec fn number_value(text: Seq<char>, max: nat) -> Result<nat, NumberError> {
    if text.len() == 0 {
        Err(NumberError::Empty)
    } else {
        let digits = if text[0] == '+' {
            text.skip(1)
        } else {
            text
        };
        if digits.len() == 0 {
            Err(NumberError::InvalidDigit)
        } else {
            digits_value(digits, 0, max)
        }
    }
}

fn digit_of(c: char) -> (d: Option<u8>)
    ensures
        match digit_value(c) {
            Some(v) => d == Some(v as u8) && v < 10,
            None => d is None,
        },
{
    if '0' <= c && c <= '9' {
        Some((c as u32 - '0' as u32) as u8)
    } else {
        None
    }
}

/// Reads `text` as a number of at most `max`.
pub fn parse_number(text: &str, max: u64) -> (result: Result<u64, NumberError>)
    ensures
        match number_value(text@, max as nat) {
            Ok(value) => result == Ok::<u64, NumberError>(value as u64) && value <= max,
            Err(error) => result == Err::<u64, NumberError>(error),
        },
{
    if text.is_empty() {
        return Err(NumberError::Empty);
    }
    let mut value: u64 = 0;
    let mut at_start = true;
    let mut any_digit = false;
    let ghost offset: int = if text@[0] == '+' {
        1
    } else {
        0
    };
    let ghost digits = text@.skip(offset);
    let ghost total = digits_value(digits, 0, max as nat);
    let ghost expected = number_value(text@, max as nat);
    assert(digits.skip(0) =~= digits);
    assert(text@.skip(0) =~= text@);
    for c in it: text.chars()
        invariant
            it.seq() == text@,
            text@.len() > 0,
            expected == number_value(text@, max as nat),
            expected == if digits.len() == 0 {
                Err::<nat, NumberError>(NumberError::InvalidDigit)
            } else {
                total
            },
            offset == if text@[0] == '+' {
                1int
            } else {
                0int
            },
            digits == text@.skip(offset),
            total == digits_value(digits, 0, max as nat),
            at_start <==> it.index() == 0,
            any_digit <==> it.index() > offset,
            !any_digit ==> value == 0,
            value <= max,
            it.index() >= offset ==> digits_value(
                digits.skip(it.index() - offset),
                value as nat,
                max as nat,
            ) == total,
    {
        if at_start && c == '+' {
            at_start = false;
            assert(text@[0] == c);
            assert(digits.skip(0) =~= digits);
        } else {
            at_start = false;
            let ghost rest = digits.skip(it.index() - offset);
            assert(rest.len() > 0);
            assert(rest[0] == c);
            assert(rest.skip(1) =~= digits.skip(it.index() + 1 - offset));
            assert(digits_value(rest, value as nat, max as nat) == total);
            let digit = match digit_of(c) {
                None => {
                    return Err(NumberError::InvalidDigit);
                },
                Some(digit) => digit,
            };
            let next = match value.checked_mul(10) {
                None => {
                    return Err(NumberError::TooLarge);
                },
                Some(tenfold) => match tenfold.checked_add(digit as u64) {
                    None => {
                        return Err(NumberError::TooLarge);
                    },
                    Some(next) => next,
                },
            };
            if next > max {
                return Err(NumberError::TooLarge);
            }
            assert(next == value * 10 + digit);
            assert(digits_value(rest, value as nat, max as nat) == digits_value(
                rest.skip(1),
                next as nat,
                max as nat,
            ));
            value = next;
            any_digit = true;
        }
    }
    if !any_digit {
        assert(digits.len() == 0);
        return Err(NumberError::InvalidDigit);
    }
    assert(digits.skip(digits.len() as int).len() == 0);
    Ok(value)
}

/// The place of the first `c` in `text`, or the length of `text` if there
/// is none.
pub open spec fn position_of(text: Seq<char>, c: char) -> nat
    decreases text.len(),
{
    if text.len() == 0 || text[0] == c {
        0
    } else {
        1 + position_of(text.skip(1), c)
    }
}

/// The message for a number that could not be read: what the number was
/// for, and why it is none.
pub open spec fn number_message(prefix: Seq<char>, error: NumberError) -> Seq<char> {
    prefix + error.message()
}

/// What `text` denotes: with a hyphen, the range from the number before the
/// first hyphen to the number after it; without one, a single number. White
/// space around a number is skipped, and no number may exceed `max`. A text
/// that denotes nothing gives the message that says why.
pub open spec fn range_value(text: Seq<char>, max: nat) -> Result<RangeOrValue<nat>, Seq<char>> {
    let dash = position_of(text, '-');
    if dash < text.len() {
        match number_value(trimmed(text.take(dash as int)), max) {
            Err(error) => Err(number_message("Invalid start of range: "@, error)),
            Ok(first) => match number_value(trimmed(text.skip(dash as int + 1)), max) {
                Err(error) => Err(number_message("Invalid end of range: "@, error)),
                Ok(last) => if first > last {
                    Err("Start of range cannot be greater than end"@)
                } else {
                    Ok(RangeOrValue::Range(first, last))
                },
            },
        }
    } else {
        match number_value(trimmed(text), max) {
            Err(error) => Err(number_message("Invalid number: "@, error)),
            Ok(value) => Ok(RangeOrValue::Single(value)),
        }
    }
}

/// `parsed` is `expected`, number for number and letter for letter.
pub open spec fn denotes<T: RangeNumber>(
    parsed: Result<RangeOrValue<T>, String>,
    expected: Result<RangeOrValue<nat>, Seq<char>>,
) -> bool {
    match expected {
        Ok(RangeOrValue::Single(value)) => parsed matches Ok(RangeOrValue::Single(v)) && v.number()
            == value,
        Ok(RangeOrValue::Range(first, last)) => parsed matches Ok(RangeOrValue::Range(f, l))
            && f.number() == first && l.number() == last,
        Err(message) => parsed matches Err(m) && m@ == message,
    }
}

proof fn lemma_position_of(text: Seq<char>, c: char, place: int)
    requires
        0 <= place <= text.len(),
        forall|j: int| 0 <= j < place ==> text[j] != c,
        place < text.len() ==> text[place] == c,
    ensures
        position_of(text, c) == place,
    decreases place,
{
    if place > 0 {
        let tail = text.skip(1);
        assert forall|j: int| 0 <= j < place - 1 implies tail[j] != c by {
            assert(tail[j] == text[j + 1]);
        }
        lemma_position_of(tail, c, place - 1);
    }
}

fn number_error(prefix: &str, error: NumberError) -> (message: String)
    ensures
        message@ == number_message(prefix@, error),
{
    let mut message = prefix.to_string();
    message.append(error.as_str());
    message
}

/// Reads `s` as a number or as a range of numbers, `first-last`.
pub fn parse_range_or_value<T: RangeNumber>(s: &str) -> (result: Result<RangeOrValue<T>, String>)
    ensures
        denotes(result, range_value(s@, T::largest())),
{
    let max = T::upper_bound();
    let mut before = String::new();
    let mut after = String::new();
    let mut found = false;
    let ghost mut dash: int = 0;
    for c in it: s.chars()
        invariant
            it.seq() == s@,
            0 <= dash <= it.index(),
            forall|j: int| 0 <= j < dash ==> s@[j] != '-',
            !found ==> dash == it.index() && before@ == s@.take(dash) && after@.len() == 0,
            found ==> dash < it.index() && s@[dash] == '-' && before@ == s@.take(dash) && after@
                == s@.subrange(dash + 1, it.index() as int),
    {
        if found {
            crate::text::push_char(&mut after, c);
            assert(after@ =~= s@.subrange(dash + 1, it.index() + 1));
        } else if c == '-' {
            found = true;
            assert(after@ =~= s@.subrange(dash + 1, it.index() + 1));
        } else {
            crate::text::push_char(&mut before, c);
            proof {
                dash = dash + 1;
            }
            assert(before@ =~= s@.take(dash));
        }
    }
    proof {
        lemma_position_of(s@, '-', dash);
        assert(s@.take(s@.len() as int) =~= s@);
        assert(s@.subrange(dash + 1, s@.len() as int) =~= s@.skip(dash + 1));
    }
    if found {
        let first = match parse_number(trim(before.as_str()).as_str(), max) {
            Err(error) => {
                return Err(number_error("Invalid start of range: ", error));
            },
            Ok(first) => first,
        };
        let last = match parse_number(trim(after.as_str()).as_str(), max) {
            Err(error) => {
                return Err(number_error("Invalid end of range: ", error));
            },
            Ok(last) => last,
        };
        if first > last {
            return Err("Start of range cannot be greater than end".to_string());
        }
        Ok(RangeOrValue::Range(T::from_u64(first).unwrap(), T::from_u64(last).unwrap()))
    } else {
        match parse_number(trim(before.as_str()).as_str(), max) {
            Err(error) => Err(number_error("Invalid number: ", error)),
            Ok(value) => Ok(RangeOrValue::Single(T::from_u64(value).unwrap())),
        }
    }
}

} // verus!
