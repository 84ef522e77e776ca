//! The minute at which a manifest was written, and the text that stands for
//! it at the start of the manifest's file name.
use chrono::NaiveDate;
use vstd::prelude::*;

use crate::common::FILEDATE_PREFIX_FORMAT;
use crate::text::{
    lemma_absent_from_both, lemma_split_on_first, lemma_split_on_whole, split_chars, split_on,
    string_of, texts_of,
};

verus! {

/// A minute of a day of the calendar.
#[derive(Clone, Copy, Debug, PartialEq, Eq, Structural)]
pub struct FileDate {
    pub year: i32,
    pub month: u32,
    pub day: u32,
    pub hour: u32,
    pub minute: u32,
}

/// Whether `year` has a 29th of February.
pub open spec fn is_leap_year(year: int) -> bool {
    year % 4 == 0 && (year % 100 != 0 || year % 400 == 0)
}

/// The number of days of `month` in `year`.
pub open spec fn days_in_month(year: int, month: int) -> int {
    if month == 2 {
        if is_leap_year(year) {
            29
        } else {
            28
        }
    } else if month == 4 || month == 6 || month == 9 || month == 11 {
        30
    } else {
        31
    }
}

/// The ten digits, each at the place of its value.
pub open spec fn decimal_digits() -> Seq<char> {
    seq!['0', '1', '2', '3', '4', '5', '6', '7', '8', '9']
}

/// `number` in decimal, without padding.
pub open spec fn decimal(number: nat) -> Seq<char>
    decreases number,
{
    if number < 10 {
        seq![decimal_digits()[number as int]]
    } else {
        decimal(number / 10).push(decimal_digits()[(number % 10) as int])
    }
}

/// `number` in decimal, padded with zeros to four digits. It is meant for
/// numbers below 10000.
pub open spec fn four_digits(number: nat) -> Seq<char> {
    seq![
        decimal_digits()[(number / 1000) as int],
        decimal_digits()[(number / 100 % 10) as int],
        decimal_digits()[(number / 10 % 10) as int],
        decimal_digits()[(number % 10) as int],
    ]
}

/// The text that stands for `date` in a file name: the year in four digits,
/// then month, day, hour and minute without padding, joined by hyphens.
pub open spec fn date_prefix(date: FileDate) -> Seq<char> {
    four_digits(date.year as nat) + seq!['-'] + decimal(date.month as nat) + seq!['-'] + decimal(
        date.day as nat,
    ) + seq!['-'] + decimal(date.hour as nat) + seq!['-'] + decimal(date.minute as nat)
}

impl FileDate {
    /// The date is a day of the calendar in a year of four digits, and the
    /// time a minute of a day.
    pub open spec fn is_valid(&self) -> bool {
        &&& 0 <= self.year <= 9999
        &&& 1 <= self.month <= 12
        &&& 1 <= self.day <= days_in_month(self.year as int, self.month as int)
        &&& self.hour < 24
        &&& self.minute < 60
    }

    /// Whether the date is valid.
    pub fn check(&self) -> (valid: bool)
        ensures
            valid == self.is_valid(),
    {
        if self.year < 0 || self.year > 9999 || self.month < 1 || self.month > 12 {
            return false;
        }
        let leap = self.year % 4 == 0 && (self.year % 100 != 0 || self.year % 400 == 0);
        let days: u32 = if self.month == 2 {
            if leap {
                29
            } else {
                28
            }
        } else if self.month == 4 || self.month == 6 || self.month == 9 || self.month == 11 {
            30
        } else {
            31
        };
        1 <= self.day && self.day <= days && self.hour < 24 && self.minute < 60
    }

    /// Whether `self` is a later minute than `other`.
    pub open spec fn is_after(&self, other: &FileDate) -> bool {
        ||| self.year > other.year
        ||| self.year == other.year && self.month > other.month
        ||| self.year == other.year && self.month == other.month && self.day > other.day
        ||| self.year == other.year && self.month == other.month && self.day == other.day
            && self.hour > other.hour
        ||| self.year == other.year && self.month == other.month && self.day == other.day
            && self.hour == other.hour && self.minute > other.minute
    }

    /// Whether `self` is a later minute than `other`.
    pub fn later_than(&self, other: &FileDate) -> (later: bool)
        ensures
            later == self.is_after(other),
    {
        if self.year != other.year {
            self.year > other.year
        } else if self.month != other.month {
            self.month > other.month
        } else if self.day != other.day {
            self.day > other.day
        } else if self.hour != other.hour {
            self.hour > other.hour
        } else {
            self.minute > other.minute
        }
    }

    /// The text that stands for the date in a file name, where the date is
    /// valid.
    pub fn file_prefix(&self) -> (prefix: Option<String>)
        ensures
            prefix is Some <==> self.is_valid(),
            prefix matches Some(text) ==> text@ == date_prefix(*self),
    {
        if self.check() {
            format_file_date(self, FILEDATE_PREFIX_FORMAT)
        } else {
            None
        }
    }
}

/// chrono's `NaiveDate::from_ymd_opt` and `NaiveDate::and_hms_opt` make a
/// date and time of every valid `date`, and `NaiveDateTime::format` with the
/// pattern of [`FILEDATE_PREFIX_FORMAT`] writes a year from 0 to 9999 in four
/// digits and the other four numbers without padding, with hyphens between
/// them.
#[verifier::external_body]
fn format_file_date(date: &FileDate, pattern: &str) -> (prefix: Option<String>)
    requires
        pattern@ == FILEDATE_PREFIX_FORMAT@,
    ensures
        date.is_valid() ==> prefix is Some,
        date.is_valid() ==> (prefix matches Some(text) ==> text@ == date_prefix(*date)),
{
    let day = NaiveDate::from_ymd_opt(date.year, date.month, date.day)?;
    let minute = day.and_hms_opt(date.hour, date.minute, 0)?;
    Some(minute.format(pattern).to_string())
}

/// Whether `c` is one of the ten digits.
pub open spec fn is_digit(c: char) -> bool {
    48 <= c as u32 <= 57
}

/// The number that `digits` stand for in decimal. It is meant for texts of
/// digits.
pub open spec fn digits_value(digits: Seq<char>) -> nat
    decreases digits.len(),
{
    if digits.len() == 0 {
        0
    } else {
        (digits_value(digits.drop_last()) * 10 + (digits.last() as u32 - 48)) as nat
    }
}

/// The number that `text` is in decimal, where `text` is made of one to nine
/// digits.
pub open spec fn number_of(text: Seq<char>) -> Option<nat> {
    if 1 <= text.len() <= 9 && (forall|i: int| 0 <= i < text.len() ==> is_digit(text[i])) {
        Some(digits_value(text))
    } else {
        None
    }
}

/// The five numbers of `text`, where `text` is five numbers with hyphens
/// between them: year, month, day, hour and minute.
pub open spec fn prefix_fields(text: Seq<char>) -> Option<FileDate> {
    let parts = split_on(text, '-');
    if parts.len() == 5 && number_of(parts[0]) is Some && number_of(parts[1]) is Some && number_of(
        parts[2],
    ) is Some && number_of(parts[3]) is Some && number_of(parts[4]) is Some {
        Some(
            FileDate {
                year: number_of(parts[0])->0 as i32,
                month: number_of(parts[1])->0 as u32,
                day: number_of(parts[2])->0 as u32,
                hour: number_of(parts[3])->0 as u32,
                minute: number_of(parts[4])->0 as u32,
            },
        )
    } else {
        None
    }
}

/// Whether `text` is what stands for the valid date `date` in a file name.
pub open spec fn is_prefix_of(date: FileDate, text: Seq<char>) -> bool {
    date.is_valid() && date_prefix(date) == text
}

/// The valid date that `text` stands for in a file name, if it stands for
/// one.
pub open spec fn date_of_prefix(text: Seq<char>) -> Option<FileDate> {
    if exists|date: FileDate| is_prefix_of(date, text) {
        Some(choose|date: FileDate| is_prefix_of(date, text))
    } else {
        None
    }
}

/// A number below a hundred is written in one or two digits and without a
/// hyphen, and is read back from them.
pub proof fn lemma_decimal_below_hundred(number: nat)
    requires
        number < 100,
    ensures
        !decimal(number).contains('-'),
        !decimal(number).contains('_'),
        number_of(decimal(number)) == Some(number),
{
    let text = decimal(number);
    if number < 10 {
        assert(text =~= seq![decimal_digits()[number as int]]);
        assert(text.drop_last() =~= Seq::<char>::empty());
        assert(digits_value(text.drop_last()) == 0);
    } else {
        let high = number / 10;
        let low = number % 10;
        assert(decimal(high) =~= seq![decimal_digits()[high as int]]);
        assert(text =~= seq![decimal_digits()[high as int], decimal_digits()[low as int]]);
        let front = text.drop_last();
        assert(front =~= seq![decimal_digits()[high as int]]);
        assert(front.drop_last() =~= Seq::<char>::empty());
        assert(digits_value(front.drop_last()) == 0);
        assert(digits_value(front) == high);
    }
    assert forall|i: int| 0 <= i < text.len() implies is_digit(text[i]) && text[i] != '-'
        && text[i] != '_' by {}
    assert(!text.contains('-'));
    assert(!text.contains('_'));
}

/// A number below ten thousand is written in four digits and without a
/// hyphen, and is read back from them.
pub proof fn lemma_four_digits(number: nat)
    requires
        number < 10000,
    ensures
        !four_digits(number).contains('-'),
        !four_digits(number).contains('_'),
        number_of(four_digits(number)) == Some(number),
{
    let text = four_digits(number);
    let three = text.drop_last();
    let two = three.drop_last();
    let one = two.drop_last();
    assert(one.drop_last() =~= Seq::<char>::empty());
    assert(digits_value(one.drop_last()) == 0);
    assert(digits_value(one) == number / 1000);
    assert(digits_value(two) == number / 100);
    assert(digits_value(three) == number / 10);
    assert forall|i: int| 0 <= i < text.len() implies is_digit(text[i]) && text[i] != '-'
        && text[i] != '_' by {}
    assert(!text.contains('-'));
    assert(!text.contains('_'));
}

/// What stands for a valid date is read back as that date.
pub proof fn lemma_prefix_fields(date: FileDate)
    requires
        date.is_valid(),
    ensures
        prefix_fields(date_prefix(date)) == Some(date),
{
    let year = four_digits(date.year as nat);
    let month = decimal(date.month as nat);
    let day = decimal(date.day as nat);
    let hour = decimal(date.hour as nat);
    let minute = decimal(date.minute as nat);
    let hyphen = seq!['-'];
    lemma_four_digits(date.year as nat);
    lemma_decimal_below_hundred(date.month as nat);
    lemma_decimal_below_hundred(date.day as nat);
    lemma_decimal_below_hundred(date.hour as nat);
    lemma_decimal_below_hundred(date.minute as nat);
    let from_hour = hour + hyphen + minute;
    let from_day = day + hyphen + from_hour;
    let from_month = month + hyphen + from_day;
    assert(date_prefix(date) =~= year + hyphen + from_month);
    lemma_split_on_whole(minute, '-');
    lemma_split_on_first(hour, minute, '-');
    lemma_split_on_first(day, from_hour, '-');
    lemma_split_on_first(month, from_day, '-');
    lemma_split_on_first(year, from_month, '-');
    assert(split_on(date_prefix(date), '-') =~= seq![year, month, day, hour, minute]);
}

/// What stands for a valid date holds no underscore.
pub proof fn lemma_prefix_has_no_underscore(date: FileDate)
    requires
        date.is_valid(),
    ensures
        !date_prefix(date).contains('_'),
{
    let hyphen = seq!['-'];
    lemma_four_digits(date.year as nat);
    lemma_decimal_below_hundred(date.month as nat);
    lemma_decimal_below_hundred(date.day as nat);
    lemma_decimal_below_hundred(date.hour as nat);
    lemma_decimal_below_hundred(date.minute as nat);
    assert(!hyphen.contains('_'));
    let year = four_digits(date.year as nat);
    let to_month = year + hyphen + decimal(date.month as nat);
    let to_day = to_month + hyphen + decimal(date.day as nat);
    let to_hour = to_day + hyphen + decimal(date.hour as nat);
    lemma_absent_from_both(year, hyphen, '_');
    lemma_absent_from_both(year + hyphen, decimal(date.month as nat), '_');
    lemma_absent_from_both(to_month, hyphen, '_');
    lemma_absent_from_both(to_month + hyphen, decimal(date.day as nat), '_');
    lemma_absent_from_both(to_day, hyphen, '_');
    lemma_absent_from_both(to_day + hyphen, decimal(date.hour as nat), '_');
    lemma_absent_from_both(to_hour, hyphen, '_');
    lemma_absent_from_both(to_hour + hyphen, decimal(date.minute as nat), '_');
}

/// No text stands for two valid dates.
pub proof fn lemma_prefix_is_of_one_date(first: FileDate, second: FileDate)
    requires
        first.is_valid(),
        second.is_valid(),
        date_prefix(first) == date_prefix(second),
    ensures
        first == second,
{
    lemma_prefix_fields(first);
    lemma_prefix_fields(second);
}

/// The date that was written as a prefix is the date that the prefix stands
/// for.
pub proof fn lemma_prefix_round_trip(date: FileDate)
    requires
        date.is_valid(),
    ensures
        date_of_prefix(date_prefix(date)) == Some(date),
{
    assert(is_prefix_of(date, date_prefix(date)));
    let chosen = choose|chosen: FileDate| is_prefix_of(chosen, date_prefix(date));
    lemma_prefix_is_of_one_date(date, chosen);
}

/// Ten to the power of `exponent`.
pub open spec fn ten_to(exponent: nat) -> nat
    decreases exponent,
{
    if exponent == 0 {
        1
    } else {
        10 * ten_to((exponent - 1) as nat)
    }
}

/// Powers of ten grow with the exponent, and the ninth is a thousand
/// millions.
pub proof fn lemma_ten_to(exponent: nat)
    requires
        exponent <= 9,
    ensures
        1 <= ten_to(exponent) <= 1_000_000_000,
        exponent < 9 ==> ten_to(exponent) <= 100_000_000,
    decreases 9 - exponent,
{
    if exponent == 9 {
        reveal_with_fuel(ten_to, 10);
    } else {
        lemma_ten_to(exponent + 1);
    }
}

/// The number that `digits` is in decimal, where it is one to nine digits.
pub fn read_number(digits: &Vec<char>) -> (number: Option<u32>)
    ensures
        match number {
            Some(value) => number_of(digits@) == Some(value as nat),
            None => number_of(digits@) is None,
        },
{
    let length = digits.len();
    if length < 1 || length > 9 {
        return None;
    }
    let mut value: u64 = 0;
    let mut limit: u64 = 1;
    let mut at: usize = 0;
    proof {
        assert(digits@.take(0) =~= Seq::<char>::empty());
    }
    while at < length
        invariant
            at <= length <= 9,
            length == digits@.len(),
            value < limit,
            limit == ten_to(at as nat),
            forall|i: int| 0 <= i < at ==> is_digit(digits@[i]),
            value == digits_value(digits@.take(at as int)),
        decreases length - at,
    {
        let code: u32 = digits[at] as u32;
        if code < 48 || code > 57 {
            proof {
                assert(!is_digit(digits@[at as int]));
            }
            return None;
        }
        proof {
            assert(digits@.take(at + 1).drop_last() =~= digits@.take(at as int));
            assert(digits@.take(at + 1).last() == digits@[at as int]);
            lemma_ten_to(at as nat);
        }
        value = value * 10 + (code - 48) as u64;
        limit = limit * 10;
        at += 1;
    }
    proof {
        assert(digits@.take(length as int) =~= digits@);
        lemma_ten_to(at as nat);
    }
    Some(value as u32)
}

impl FileDate {
    /// The valid date that `prefix` stands for in a file name, if it stands
    /// for one: only what [`FileDate::file_prefix`] writes is read.
    pub fn from_prefix(prefix: &Vec<char>) -> (date: Option<FileDate>)
        ensures
            date == date_of_prefix(prefix@),
    {
        let ghost text = prefix@;
        proof {
            assert forall|date: FileDate| is_prefix_of(date, text) implies prefix_fields(text)
                == Some(date) by {
                lemma_prefix_fields(date);
            }
        }
        let parts = split_chars(prefix, '-');
        if parts.len() != 5 {
            return None;
        }
        proof {
            assert(texts_of(parts@)[0] == parts[0]@);
            assert(texts_of(parts@)[1] == parts[1]@);
            assert(texts_of(parts@)[2] == parts[2]@);
            assert(texts_of(parts@)[3] == parts[3]@);
            assert(texts_of(parts@)[4] == parts[4]@);
        }
        let year = match read_number(&parts[0]) {
            Some(year) => year,
            None => {
                return None;
            },
        };
        let month = match read_number(&parts[1]) {
            Some(month) => month,
            None => {
                return None;
            },
        };
        let day = match read_number(&parts[2]) {
            Some(day) => day,
            None => {
                return None;
            },
        };
        let hour = match read_number(&parts[3]) {
            Some(hour) => hour,
            None => {
                return None;
            },
        };
        let minute = match read_number(&parts[4]) {
            Some(minute) => minute,
            None => {
                return None;
            },
        };
        let candidate = FileDate { year: year as i32, month, day, hour, minute };
        proof {
            assert(prefix_fields(text) == Some(candidate));
        }
        let written = match candidate.file_prefix() {
            Some(written) => written,
            None => {
                return None;
            },
        };
        let length = prefix.len();
        proof {
            assert(prefix@.subrange(0, length as int) =~= prefix@);
        }
        if string_of(prefix, 0, length) == written {
            proof {
                assert(is_prefix_of(candidate, text));
            }
            Some(candidate)
        } else {
            None
        }
    }
}

} // verus!
