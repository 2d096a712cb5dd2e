//! Millisecond timestamps and their canonical `HH:MM:SS.mmm` text form.

use crate::text::{
    all_digits, append_padded, chars_of, decimal_value, find_char, find_from, is_digit,
    lemma_find_from_at, lemma_find_from_bounds, lemma_padded_of_value, lemma_padded_shape,
    lemma_short_value_bound, padded, read_number, Numeral,
};
use vstd::arithmetic::div_mod::lemma_fundamental_div_mod_converse;
use vstd::prelude::*;
use vstd::string::*;

verus! {

/// The hours field of the text form of `millis` milliseconds.
pub open spec fn hours_of(millis: nat) -> nat {
    millis / 3_600_000
}

/// The minutes field of the text form of `millis` milliseconds.
pub open spec fn minutes_of(millis: nat) -> nat {
    (millis / 60_000) % 60
}

/// The seconds field of the text form of `millis` milliseconds.
pub open spec fn seconds_of(millis: nat) -> nat {
    (millis / 1000) % 60
}

/// The milliseconds field of the text form of `millis` milliseconds.
pub open spec fn subsec_of(millis: nat) -> nat {
    millis % 1000
}

/// The canonical text of `millis` milliseconds: hours on two digits or more,
/// minutes and seconds on two, milliseconds on three.
pub open spec fn canonical_text(millis: nat) -> Seq<char> {
    padded(hours_of(millis), 2) + seq![':'] + padded(minutes_of(millis), 2) + seq![':'] + padded(
        seconds_of(millis),
        2,
    ) + seq!['.'] + padded(subsec_of(millis), 3)
}

/// The field of a timestamp's text that kept it from being read.
#[derive(Debug, Clone, Copy, PartialEq, Eq, Structural)]
pub enum ParseError {
    /// The hours are missing, are not two digits or more, carry a needless
    /// leading zero, or are too many to be counted in milliseconds.
    Hours,
    /// The minutes are missing, are not two digits, or are sixty or more.
    Minutes,
    /// The seconds are missing, are not two digits, or are sixty or more.
    Seconds,
    /// The milliseconds are missing or are not three digits.
    Millis,
}

/// Whether `field` can stand as the hours of a canonical text.
pub open spec fn hours_field_ok(field: Seq<char>) -> bool {
    &&& field.len() >= 2
    &&& all_digits(field)
    &&& (field.len() > 2 ==> field[0] != '0')
}

/// Whether `field` can stand as the minutes or the seconds of a canonical text.
pub open spec fn sixty_field_ok(field: Seq<char>) -> bool {
    &&& field.len() == 2
    &&& all_digits(field)
    &&& decimal_value(field) < 60
}

/// Whether `field` can stand as the milliseconds of a canonical text.
pub open spec fn millis_field_ok(field: Seq<char>) -> bool {
    &&& field.len() == 3
    &&& all_digits(field)
}

/// The number of milliseconds in the given hours, minutes, seconds and milliseconds.
pub open spec fn total_millis(hours: nat, minutes: nat, seconds: nat, millis: nat) -> nat {
    hours * 3_600_000 + minutes * 60_000 + seconds * 1000 + millis
}

/// What reading `text` as a timestamp gives: its milliseconds, or the first
/// field that is not as the canonical form asks. The hours end at the first
/// colon, the minutes at the next, the seconds at the first full stop behind
/// it, and the milliseconds are all that follows.
pub open spec fn parse_text(text: Seq<char>) -> Result<nat, ParseError> {
    let c1 = find_from(text, ':', 0);
    let c2 = find_from(text, ':', c1 + 1);
    let dot = find_from(text, '.', c2 + 1);
    let end = text.len() as int;
    if !hours_field_ok(text.subrange(0, c1)) {
        Err(ParseError::Hours)
    } else if c1 >= end || !sixty_field_ok(text.subrange(c1 + 1, c2)) {
        Err(ParseError::Minutes)
    } else if c2 >= end || !sixty_field_ok(text.subrange(c2 + 1, dot)) {
        Err(ParseError::Seconds)
    } else if dot >= end || !millis_field_ok(text.subrange(dot + 1, end)) {
        Err(ParseError::Millis)
    } else {
        let total = total_millis(
            decimal_value(text.subrange(0, c1)),
            decimal_value(text.subrange(c1 + 1, c2)),
            decimal_value(text.subrange(c2 + 1, dot)),
            decimal_value(text.subrange(dot + 1, end)),
        );
        if total > u64::MAX {
            Err(ParseError::Hours)
        } else {
            Ok(total)
        }
    }
}

/// Why two timestamps could not be added or subtracted.
#[derive(Debug, Clone, Copy, PartialEq, Eq, Structural)]
pub enum TimeError {
    /// The sum is more than a timestamp can hold.
    Overflow,
    /// The timestamp to subtract lies after the one it is subtracted from.
    Inverted,
}

/// The sum of `a` and `b` milliseconds, where a timestamp can hold it.
pub open spec fn add_millis_spec(a: nat, b: nat) -> Result<nat, TimeError> {
    if a + b <= u64::MAX {
        Ok(a + b)
    } else {
        Err(TimeError::Overflow)
    }
}

/// The milliseconds from `b` up to `a`, where `b` does not lie after `a`.
pub open spec fn subtract_millis_spec(a: nat, b: nat) -> Result<nat, TimeError> {
    if b <= a {
        Ok((a - b) as nat)
    } else {
        Err(TimeError::Inverted)
    }
}

/// A non-negative point on a timeline, counted in whole milliseconds.
#[derive(Debug, Clone, Copy, PartialEq, Eq, PartialOrd, Ord, Hash, Structural)]
pub struct Timestamp {
    /// The milliseconds between zero and this timestamp.
    pub millis: u64,
}

impl View for Timestamp {
    type V = nat;

    open spec fn view(&self) -> nat {
        self.millis as nat
    }
}

impl Timestamp {
    /// The timestamp that lies `millis` milliseconds after zero.
    pub fn from_millis(millis: u64) -> (t: Timestamp)
        ensures
            t@ == millis,
    {
        Timestamp { millis }
    }

    /// The number of milliseconds between zero and this timestamp.
    pub fn as_millis(&self) -> (millis: u64)
        ensures
            millis == self@,
    {
        self.millis
    }

    /// This timestamp moved later by `other`: the sum of the two, or
    /// `TimeError::Overflow` where no timestamp can hold it.
    pub fn add(self, other: Timestamp) -> (sum: Result<Timestamp, TimeError>)
        ensures
            match sum {
                Ok(t) => add_millis_spec(self@, other@) == Ok::<nat, TimeError>(t@),
                Err(e) => add_millis_spec(self@, other@) == Err::<nat, TimeError>(e),
            },
    {
        self.add_millis(other.millis)
    }

    /// This timestamp moved later by `millis` milliseconds, or
    /// `TimeError::Overflow` where no timestamp can hold the sum.
    pub fn add_millis(self, millis: u64) -> (sum: Result<Timestamp, TimeError>)
        ensures
            match sum {
                Ok(t) => add_millis_spec(self@, millis as nat) == Ok::<nat, TimeError>(t@),
                Err(e) => add_millis_spec(self@, millis as nat) == Err::<nat, TimeError>(e),
            },
    {
        match self.millis.checked_add(millis) {
            Some(total) => Ok(Timestamp { millis: total }),
            None => Err(TimeError::Overflow),
        }
    }

    /// The milliseconds from `other` up to this timestamp, or
    /// `TimeError::Inverted` where `other` lies after it.
    pub fn subtract(self, other: Timestamp) -> (span: Result<u64, TimeError>)
        ensures
            match span {
                Ok(d) => subtract_millis_spec(self@, other@) == Ok::<nat, TimeError>(d as nat),
                Err(e) => subtract_millis_spec(self@, other@) == Err::<nat, TimeError>(e),
            },
    {
        if other.millis <= self.millis {
            Ok(self.millis - other.millis)
        } else {
            Err(TimeError::Inverted)
        }
    }

    /// Reads a timestamp from its canonical `HH:MM:SS.mmm` text, and says which
    /// field is at fault where `text` is not canonical.
    pub fn parse(text: &str) -> (result: Result<Timestamp, ParseError>)
        ensures
            match result {
                Ok(t) => parse_text(text@) == Ok::<nat, ParseError>(t@),
                Err(e) => parse_text(text@) == Err::<nat, ParseError>(e),
            },
            result matches Ok(t) ==> canonical_text(t@) == text@,
    {
        proof {
            if parse_text(text@) is Ok {
                lemma_parse_then_format(text@);
            }
        }
        let chars = chars_of(text);
        let end = chars.len();
        let c1 = find_char(&chars, ':', 0);
        let hours = read_number(&chars, 0, c1);
        if c1 < 2 || hours == Numeral::NotDigits || (c1 > 2 && chars[0] == '0') {
            return Err(ParseError::Hours);
        }
        if c1 >= end {
            return Err(ParseError::Minutes);
        }
        let c2 = find_char(&chars, ':', c1 + 1);
        let minutes = match read_number(&chars, c1 + 1, c2) {
            Numeral::Value(m) => m,
            _ => 60,
        };
        if c2 - (c1 + 1) != 2 || minutes >= 60 {
            return Err(ParseError::Minutes);
        }
        if c2 >= end {
            return Err(ParseError::Seconds);
        }
        let dot = find_char(&chars, '.', c2 + 1);
        let seconds = match read_number(&chars, c2 + 1, dot) {
            Numeral::Value(s) => s,
            _ => 60,
        };
        if dot - (c2 + 1) != 2 || seconds >= 60 {
            return Err(ParseError::Seconds);
        }
        if dot >= end {
            return Err(ParseError::Millis);
        }
        if end - (dot + 1) != 3 {
            return Err(ParseError::Millis);
        }
        proof {
            if all_digits(chars@.subrange(dot + 1, end as int)) {
                lemma_short_value_bound(chars@.subrange(dot + 1, end as int));
            }
        }
        let millis = match read_number(&chars, dot + 1, end) {
            Numeral::Value(m) => m,
            _ => {
                return Err(ParseError::Millis);
            },
        };
        let rest: u64 = minutes * 60_000 + seconds * 1000 + millis;
        match hours {
            Numeral::Value(h) => {
                match (h * 3_600_000).checked_add(rest) {
                    Some(total) => Ok(Timestamp { millis: total }),
                    None => Err(ParseError::Hours),
                }
            },
            _ => Err(ParseError::Hours),
        }
    }

    /// The canonical `HH:MM:SS.mmm` text of this timestamp.
    pub fn format(&self) -> (text: String)
        ensures
            text@ == canonical_text(self@),
            parse_text(text@) == Ok::<nat, ParseError>(self@),
    {
        proof {
            lemma_format_then_parse(self@);
            reveal_strlit(":");
            reveal_strlit(".");
        }
        let mut text = String::new();
        append_padded(&mut text, self.millis / 3_600_000, 2);
        text.append(":");
        append_padded(&mut text, (self.millis / 60_000) % 60, 2);
        text.append(":");
        append_padded(&mut text, (self.millis / 1000) % 60, 2);
        text.append(".");
        append_padded(&mut text, self.millis % 1000, 3);
        assert(text@ =~= canonical_text(self@));
        text
    }
}

/// The text of a timestamp that was read is the text it was read from: on
/// every text that `parse_text` accepts, formatting the result gives the text
/// back.
pub proof fn lemma_parse_then_format(text: Seq<char>)
    requires
        parse_text(text) is Ok,
    ensures
        canonical_text(parse_text(text)->Ok_0) == text,
{
    let c1 = find_from(text, ':', 0);
    let c2 = find_from(text, ':', c1 + 1);
    let dot = find_from(text, '.', c2 + 1);
    let end = text.len() as int;
    lemma_find_from_bounds(text, ':', 0);
    lemma_find_from_bounds(text, ':', c1 + 1);
    lemma_find_from_bounds(text, '.', c2 + 1);
    let hours = text.subrange(0, c1);
    let minutes = text.subrange(c1 + 1, c2);
    let seconds = text.subrange(c2 + 1, dot);
    let millis = text.subrange(dot + 1, end);
    lemma_short_value_bound(millis);
    lemma_padded_of_value(hours, 2);
    lemma_padded_of_value(minutes, 2);
    lemma_padded_of_value(seconds, 2);
    lemma_padded_of_value(millis, 3);
    lemma_fields_of_total(
        decimal_value(hours),
        decimal_value(minutes),
        decimal_value(seconds),
        decimal_value(millis),
    );
    assert(text =~= hours + seq![':'] + minutes + seq![':'] + seconds + seq!['.'] + millis);
}

/// Reading the text of a timestamp gives the timestamp back.
pub proof fn lemma_format_then_parse(millis: nat)
    requires
        millis <= u64::MAX,
    ensures
        parse_text(canonical_text(millis)) == Ok::<nat, ParseError>(millis),
{
    let hours = padded(hours_of(millis), 2);
    let minutes = padded(minutes_of(millis), 2);
    let seconds = padded(seconds_of(millis), 2);
    let subsec = padded(subsec_of(millis), 3);
    let text = canonical_text(millis);
    lemma_padded_shape(hours_of(millis), 2);
    lemma_padded_shape(minutes_of(millis), 2);
    lemma_padded_shape(seconds_of(millis), 2);
    lemma_padded_shape(subsec_of(millis), 3);
    let c1 = hours.len() as int;
    let c2 = c1 + 3;
    let dot = c2 + 3;
    let end = text.len() as int;
    assert(end == dot + 4);
    assert(text[c1] == ':');
    assert(text[c2] == ':');
    assert(text[dot] == '.');
    assert forall|i: int| 0 <= i < c1 implies text[i] != ':' by {
        assert(text[i] == hours[i]);
        assert(is_digit(hours[i]));
    }
    assert forall|i: int| c1 + 1 <= i < c2 implies text[i] != ':' by {
        assert(text[i] == minutes[i - c1 - 1]);
        assert(is_digit(minutes[i - c1 - 1]));
    }
    assert forall|i: int| c2 + 1 <= i < dot implies text[i] != '.' by {
        assert(text[i] == seconds[i - c2 - 1]);
        assert(is_digit(seconds[i - c2 - 1]));
    }
    lemma_find_from_at(text, ':', 0, c1);
    lemma_find_from_at(text, ':', c1 + 1, c2);
    lemma_find_from_at(text, '.', c2 + 1, dot);
    assert(text.subrange(0, c1) =~= hours);
    assert(text.subrange(c1 + 1, c2) =~= minutes);
    assert(text.subrange(c2 + 1, dot) =~= seconds);
    assert(text.subrange(dot + 1, end) =~= subsec);
    lemma_total_of_fields(millis);
}

/// Hours, minutes below sixty, seconds below sixty and milliseconds below a
/// thousand are the fields of their total.
pub proof fn lemma_fields_of_total(hours: nat, minutes: nat, seconds: nat, millis: nat)
    requires
        minutes < 60,
        seconds < 60,
        millis < 1000,
    ensures
        hours_of(total_millis(hours, minutes, seconds, millis)) == hours,
        minutes_of(total_millis(hours, minutes, seconds, millis)) == minutes,
        seconds_of(total_millis(hours, minutes, seconds, millis)) == seconds,
        subsec_of(total_millis(hours, minutes, seconds, millis)) == millis,
{
    let total = total_millis(hours, minutes, seconds, millis) as int;
    let whole_minutes = hours * 60 + minutes;
    let whole_seconds = whole_minutes * 60 + seconds;
    lemma_fundamental_div_mod_converse(
        total,
        3_600_000,
        hours as int,
        (minutes * 60_000 + seconds * 1000 + millis) as int,
    );
    lemma_fundamental_div_mod_converse(
        total,
        60_000,
        whole_minutes as int,
        (seconds * 1000 + millis) as int,
    );
    lemma_fundamental_div_mod_converse(total, 1000, whole_seconds as int, millis as int);
    lemma_fundamental_div_mod_converse(whole_minutes as int, 60, hours as int, minutes as int);
    lemma_fundamental_div_mod_converse(
        whole_seconds as int,
        60,
        whole_minutes as int,
        seconds as int,
    );
}

/// The fields of a number of milliseconds add up to it.
pub proof fn lemma_total_of_fields(millis: nat)
    ensures
        total_millis(hours_of(millis), minutes_of(millis), seconds_of(millis), subsec_of(millis))
            == millis,
        minutes_of(millis) < 60,
        seconds_of(millis) < 60,
        subsec_of(millis) < 1000,
{
    let whole_seconds = millis / 1000;
    let whole_minutes = whole_seconds / 60;
    let hours = whole_minutes / 60;
    let seconds = whole_seconds % 60;
    let minutes = whole_minutes % 60;
    let subsec = millis % 1000;
    lemma_fundamental_div_mod_converse(
        millis as int,
        60_000,
        whole_minutes as int,
        (seconds * 1000 + subsec) as int,
    );
    lemma_fundamental_div_mod_converse(
        millis as int,
        3_600_000,
        hours as int,
        (minutes * 60_000 + seconds * 1000 + subsec) as int,
    );
}

/// Where `a` does not lie after `b`, subtracting `a` from `b` gives the
/// milliseconds between them, and adding those to `a` gives `b` back.
pub proof fn lemma_subtract_then_add(a: Timestamp, b: Timestamp)
    requires
        a@ <= b@,
    ensures
        subtract_millis_spec(b@, a@) == Ok::<nat, TimeError>((b@ - a@) as nat),
        add_millis_spec(a@, (b@ - a@) as nat) == Ok::<nat, TimeError>(b@),
{
}

} // verus!
