//! Dates and times of varying granularity, their text and their order.

use std::cmp::Ordering;
use vstd::prelude::*;
use vstd::std_specs::cmp::PartialOrdSpecImpl;

use crate::util::text::{
    chars_of, digit, digit_char, lemma_first_index, lemma_no_index, opt_view, split_at_first,
    split_once,
};

verus! {

/// The fields of a timestamp: a year and, from the month down to the second,
/// as many finer fields as its granularity has.
pub struct Fields {
    pub year: u16,
    pub month: Option<u8>,
    pub day: Option<u8>,
    pub hour: Option<u8>,
    pub minute: Option<u8>,
    pub second: Option<u8>,
}

impl Fields {
    /// Every field lies in its range, and a field is present only where
    /// every coarser field is.
    pub open spec fn valid(self) -> bool {
        &&& self.year <= 9999
        &&& (self.month matches Some(v) ==> 1 <= v <= 12)
        &&& (self.day matches Some(v) ==> self.month is Some && 1 <= v <= 31)
        &&& (self.hour matches Some(v) ==> self.day is Some && v <= 23)
        &&& (self.minute matches Some(v) ==> self.hour is Some && v <= 59)
        &&& (self.second matches Some(v) ==> self.minute is Some && v <= 59)
    }

    /// The canonical rendering: `YYYY`, then `-MM`, `-DD`, `THH`, `:MM` and
    /// `:SS` for each field that is present.
    pub open spec fn format(self) -> Seq<char> {
        digits4(self.year as nat) + part('-', self.month) + part('-', self.day) + part(
            'T',
            self.hour,
        ) + part(':', self.minute) + part(':', self.second)
    }
}

/// A number below 100 in two decimal digits.
pub open spec fn digits2(v: nat) -> Seq<char> {
    seq![digit_char(v / 10), digit_char(v % 10)]
}

/// A number below 10000 in four decimal digits.
pub open spec fn digits4(v: nat) -> Seq<char> {
    seq![
        digit_char(v / 1000),
        digit_char((v / 100) % 10),
        digit_char((v / 10) % 10),
        digit_char(v % 10),
    ]
}

/// A separator and two digits for a field that is present, nothing for one
/// that is not.
pub open spec fn part(sep: char, v: Option<u8>) -> Seq<char> {
    match v {
        Some(v) => seq![sep] + digits2(v as nat),
        None => Seq::empty(),
    }
}

pub open spec fn is_digit(c: char) -> bool {
    0x30 <= c as u32 <= 0x39
}

/// The number that a run of decimal digits spells.
pub open spec fn digits_value(s: Seq<char>) -> nat
    decreases s.len(),
{
    if s.len() == 0 {
        0
    } else {
        10 * digits_value(s.drop_last()) + (s.last() as u32 - 0x30) as nat
    }
}

pub open spec fn all_digits(s: Seq<char>) -> bool {
    forall|i: int| 0 <= i < s.len() ==> is_digit(#[trigger] s[i])
}

/// A text without the `+` that may lead it.
pub open spec fn unsigned(s: Seq<char>) -> Seq<char> {
    if s.len() > 0 && s[0] == '+' {
        s.skip(1)
    } else {
        s
    }
}

/// An unsigned decimal number of at most `max`: an optional `+`, then one
/// or more digits and nothing else.
pub open spec fn parse_number(s: Seq<char>, max: nat) -> Option<nat> {
    let t = unsigned(s);
    if t.len() > 0 && all_digits(t) && digits_value(t) <= max {
        Some(digits_value(t))
    } else {
        None
    }
}

/// A field that may be absent: `None` where it is present and no number.
pub open spec fn parse_field(s: Option<Seq<char>>) -> Option<Option<u8>> {
    match s {
        None => Some(None),
        Some(t) => match parse_number(t, 0xff) {
            Some(v) => Some(Some(v as u8)),
            None => None,
        },
    }
}

/// The three texts of a date or of a time of day, split at `sep`: the
/// third is whatever follows the second separator.
pub open spec fn split_three(s: Option<Seq<char>>, sep: char) -> (
    Option<Seq<char>>,
    Option<Seq<char>>,
    Option<Seq<char>>,
) {
    match s {
        None => (None, None, None),
        Some(t) => {
            let p = split_once(t, sep);
            match p.1 {
                None => (Some(p.0), None, None),
                Some(r) => {
                    let q = split_once(r, sep);
                    (Some(p.0), Some(q.0), q.1)
                },
            }
        },
    }
}

/// The timestamp that a text spells, if it spells one: a date
/// `Y[-M[-D]]`, then optionally `T` and a time of day `H[:M[:S]]`; a `T`
/// with nothing behind it counts as no time of day.
pub open spec fn spec_parse(s: Seq<char>) -> Option<Fields> {
    let (date, time_raw) = split_once(s, 'T');
    let time = match time_raw {
        Some(t) => if t.len() > 0 {
            time_raw
        } else {
            None
        },
        None => None,
    };
    let (ys, ms, ds) = split_three(Some(date), '-');
    let (hs, mis, ss) = split_three(time, ':');
    match (
        parse_number(ys->0, 0xffff),
        parse_field(ms),
        parse_field(ds),
        parse_field(hs),
        parse_field(mis),
        parse_field(ss),
    ) {
        (Some(y), Some(m), Some(d), Some(h), Some(mi), Some(sec)) => {
            let f = Fields { year: y as u16, month: m, day: d, hour: h, minute: mi, second: sec };
            if f.valid() {
                Some(f)
            } else {
                None
            }
        },
        _ => None,
    }
}

fn push_digits2(s: &mut String, v: u8)
    requires
        v < 100,
    ensures
        final(s)@ == old(s)@ + digits2(v as nat),
{
    s.push(digit(v / 10));
    s.push(digit(v % 10));
    assert(s@ =~= old(s)@ + digits2(v as nat));
}

fn push_digits4(s: &mut String, v: u16)
    requires
        v < 10000,
    ensures
        final(s)@ == old(s)@ + digits4(v as nat),
{
    s.push(digit((v / 1000) as u8));
    s.push(digit(((v / 100) % 10) as u8));
    s.push(digit(((v / 10) % 10) as u8));
    s.push(digit((v % 10) as u8));
    assert(s@ =~= old(s)@ + digits4(v as nat));
}

fn push_part(s: &mut String, sep: char, v: Option<u8>)
    requires
        v matches Some(x) ==> x < 100,
    ensures
        final(s)@ == old(s)@ + part(sep, v),
{
    match v {
        Some(x) => {
            s.push(sep);
            push_digits2(s, x);
            assert(s@ =~= old(s)@ + part(sep, v));
        },
        None => {
            assert(s@ =~= old(s)@ + part(sep, v));
        },
    }
}

/// One more digit at the end: ten times the value so far, plus the digit.
pub proof fn lemma_digits_step(s: Seq<char>, i: int)
    requires
        0 <= i < s.len(),
    ensures
        digits_value(s.take(i + 1)) == 10 * digits_value(s.take(i)) + (s[i] as u32 - 0x30) as nat,
{
    assert(s.take(i + 1).drop_last() =~= s.take(i));
}

/// A prefix of a run of digits spells no more than the whole run.
pub proof fn lemma_digits_monotone(s: Seq<char>, i: int)
    requires
        0 <= i <= s.len(),
        all_digits(s),
    ensures
        digits_value(s.take(i)) <= digits_value(s),
    decreases s.len() - i,
{
    if i == s.len() {
        assert(s.take(i) =~= s);
    } else {
        lemma_digits_step(s, i);
        lemma_digits_monotone(s, i + 1);
        assert(is_digit(s[i]));
    }
}

fn split_in_three(s: Option<Vec<char>>, sep: char) -> (r: (
    Option<Vec<char>>,
    Option<Vec<char>>,
    Option<Vec<char>>,
))
    ensures
        (opt_view(r.0), opt_view(r.1), opt_view(r.2)) == split_three(opt_view(s), sep),
{
    match s {
        None => (None, None, None),
        Some(t) => {
            let (a, rest) = split_at_first(&t, sep);
            match rest {
                None => (Some(a), None, None),
                Some(r) => {
                    let (b, c) = split_at_first(&r, sep);
                    (Some(a), Some(b), c)
                },
            }
        },
    }
}

/// Reads an unsigned decimal number of at most `max`.
pub(crate) fn number(v: &Vec<char>, max: u32) -> (r: Option<u32>)
    requires
        max <= 0xffff,
    ensures
        match parse_number(v@, max as nat) {
            Some(n) => r == Some(n as u32),
            None => r is None,
        },
{
    let len: usize = v.len();
    let start: usize = if len > 0 && v[0] == '+' {
        1
    } else {
        0
    };
    let ghost t = v@.skip(start as int);
    assert(v@.skip(0) =~= v@);
    assert(t == unsigned(v@));
    if start == len {
        return None;
    }
    let mut acc: u32 = 0;
    let mut i: usize = start;
    while i < len
        invariant
            start <= i <= len,
            len == v@.len(),
            t == v@.skip(start as int),
            t == unsigned(v@),
            max <= 0xffff,
            acc <= max,
            acc == digits_value(t.take(i - start)),
            all_digits(t.take(i - start)),
        decreases len - i,
    {
        let c: char = v[i];
        let code: u32 = c as u32;
        if code < 0x30 || code > 0x39 {
            assert(!is_digit(t[i - start]));
            return None;
        }
        proof {
            lemma_digits_step(t, i - start);
        }
        acc = acc * 10 + (code - 0x30);
        assert(all_digits(t.take(i - start + 1))) by {
            assert forall|j: int| 0 <= j < i - start + 1 implies is_digit(
                #[trigger] t.take(i - start + 1)[j],
            ) by {
                if j < i - start {
                    assert(t.take(i - start + 1)[j] == t.take(i - start)[j]);
                }
            }
        }
        if acc > max {
            proof {
                if all_digits(t) {
                    lemma_digits_monotone(t, i - start + 1);
                }
            }
            return None;
        }
        i += 1;
    }
    assert(t.take(len - start) =~= t);
    Some(acc)
}

fn field(s: &Option<Vec<char>>) -> (r: Option<Option<u8>>)
    ensures
        r == parse_field(opt_view(*s)),
{
    match s {
        None => Some(None),
        Some(t) => match number(t, 0xff) {
            Some(v) => Some(Some(v as u8)),
            None => None,
        },
    }
}

/// No place of `s` holds `c`.
pub open spec fn lacks(s: Seq<char>, c: char) -> bool {
    forall|i: int| 0 <= i < s.len() ==> s[i] != c
}

/// A text that lacks `c`, then `c`, then any text, splits at that `c`.
proof fn lemma_split_at(a: Seq<char>, c: char, b: Seq<char>)
    requires
        lacks(a, c),
    ensures
        split_once(a + seq![c] + b, c) == (a, Some(b)),
{
    let s = a + seq![c] + b;
    let i = a.len() as int;
    assert(s[i] == c);
    assert forall|j: int| 0 <= j < i implies s[j] != c by {
        assert(s[j] == a[j]);
    }
    lemma_first_index(s, c, i);
    assert(s.take(i) =~= a);
    assert(s.skip(i + 1) =~= b);
}

/// A text that lacks `c` does not split.
proof fn lemma_split_none(a: Seq<char>, c: char)
    requires
        lacks(a, c),
    ensures
        split_once(a, c) == (a, None::<Seq<char>>),
{
    lemma_no_index(a, c);
}

/// The character of a digit is a digit with that value, and none of the
/// characters that separate or sign the fields.
proof fn lemma_digit_char(d: nat)
    requires
        d < 10,
    ensures
        is_digit(digit_char(d)),
        digit_char(d) as u32 - 0x30 == d,
        digit_char(d) != 'T',
        digit_char(d) != '-',
        digit_char(d) != ':',
        digit_char(d) != '+',
{
}

/// Two digits spell their number, and hold no separator.
proof fn lemma_digits2(v: nat)
    requires
        v < 100,
    ensures
        parse_number(digits2(v), 0xff) == Some(v),
        lacks(digits2(v), 'T'),
        lacks(digits2(v), '-'),
        lacks(digits2(v), ':'),
{
    let s = digits2(v);
    lemma_digit_char(v / 10);
    lemma_digit_char(v % 10);
    assert(s.drop_last() =~= seq![digit_char(v / 10)]);
    assert(s.drop_last().drop_last() =~= Seq::<char>::empty());
    assert(digits_value(s.drop_last().drop_last()) == 0);
    assert(digits_value(s.drop_last()) == v / 10);
    assert(digits_value(s) == v);
    assert(unsigned(s) == s);
    assert(all_digits(s));
}

/// Four digits spell their number, and hold no separator.
proof fn lemma_digits4(v: nat)
    requires
        v < 10000,
    ensures
        parse_number(digits4(v), 0xffff) == Some(v),
        lacks(digits4(v), 'T'),
        lacks(digits4(v), '-'),
        lacks(digits4(v), ':'),
{
    let s = digits4(v);
    lemma_digit_char(v / 1000);
    lemma_digit_char((v / 100) % 10);
    lemma_digit_char((v / 10) % 10);
    lemma_digit_char(v % 10);
    let s3 = s.drop_last();
    let s2 = s3.drop_last();
    let s1 = s2.drop_last();
    assert(s3 =~= seq![
        digit_char(v / 1000),
        digit_char((v / 100) % 10),
        digit_char((v / 10) % 10),
    ]);
    assert(s2 =~= seq![digit_char(v / 1000), digit_char((v / 100) % 10)]);
    assert(s1 =~= seq![digit_char(v / 1000)]);
    assert(s1.drop_last() =~= Seq::<char>::empty());
    assert(digits_value(s1.drop_last()) == 0);
    assert(digits_value(s1) == v / 1000);
    assert(digits_value(s2) == v / 100);
    assert(digits_value(s3) == v / 10);
    assert(digits_value(s) == v);
    assert(unsigned(s) == s);
    assert(all_digits(s));
}

/// A text that lacks `c`, followed by fields that `sep` leads, lacks `c`
/// where `sep` is another character.
proof fn lemma_lacks_concat(a: Seq<char>, b: Seq<char>, c: char)
    requires
        lacks(a, c),
        lacks(b, c),
    ensures
        lacks(a + b, c),
{
    assert forall|i: int| 0 <= i < (a + b).len() implies (a + b)[i] != c by {
        if i < a.len() {
            assert((a + b)[i] == a[i]);
        } else {
            assert((a + b)[i] == b[i - a.len()]);
        }
    }
}

/// A field of two digits lacks every separator but its own.
proof fn lemma_part_lacks(sep: char, v: Option<u8>, c: char)
    requires
        v matches Some(x) ==> x < 100,
        c != sep,
        c == 'T' || c == '-' || c == ':',
    ensures
        lacks(part(sep, v), c),
{
    match v {
        Some(x) => {
            lemma_digits2(x as nat);
            lemma_lacks_concat(seq![sep], digits2(x as nat), c);
        },
        None => {},
    }
}

/// Up to three fields of two digits, each led by `sep`, split into their
/// numbers.
proof fn lemma_split_fields(first: Seq<char>, sep: char, a: Option<u8>, b: Option<u8>)
    requires
        lacks(first, sep),
        sep == '-' || sep == ':',
        a matches Some(x) ==> x < 100,
        b matches Some(x) ==> x < 100,
        b is Some ==> a is Some,
    ensures
        split_three(Some(first + part(sep, a) + part(sep, b)), sep).0 == Some(first),
        parse_field(split_three(Some(first + part(sep, a) + part(sep, b)), sep).1) == Some(a),
        parse_field(split_three(Some(first + part(sep, a) + part(sep, b)), sep).2) == Some(b),
{
    let s = first + part(sep, a) + part(sep, b);
    match a {
        None => {
            assert(s =~= first);
            lemma_split_none(first, sep);
        },
        Some(x) => {
            lemma_digits2(x as nat);
            let rest = digits2(x as nat) + part(sep, b);
            assert(s =~= first + seq![sep] + rest);
            lemma_split_at(first, sep, rest);
            match b {
                None => {
                    assert(rest =~= digits2(x as nat));
                    lemma_split_none(rest, sep);
                },
                Some(y) => {
                    lemma_digits2(y as nat);
                    assert(rest =~= digits2(x as nat) + seq![sep] + digits2(y as nat));
                    lemma_split_at(digits2(x as nat), sep, digits2(y as nat));
                },
            }
        },
    }
}

/// The date of valid fields: its text holds no `T`, and splits at `-`
/// into the numbers of the year, the month and the day.
proof fn lemma_date_part(f: Fields)
    requires
        f.valid(),
    ensures
        lacks(date_text(f), 'T'),
        split_three(Some(date_text(f)), '-').0 == Some(digits4(f.year as nat)),
        parse_number(digits4(f.year as nat), 0xffff) == Some(f.year as nat),
        parse_field(split_three(Some(date_text(f)), '-').1) == Some(f.month),
        parse_field(split_three(Some(date_text(f)), '-').2) == Some(f.day),
{
    let year = digits4(f.year as nat);
    lemma_digits4(f.year as nat);
    lemma_part_lacks('-', f.month, 'T');
    lemma_part_lacks('-', f.day, 'T');
    lemma_lacks_concat(year, part('-', f.month), 'T');
    lemma_lacks_concat(year + part('-', f.month), part('-', f.day), 'T');
    lemma_split_fields(year, '-', f.month, f.day);
}

/// The time of day of valid fields with an hour: its text is not empty,
/// and splits at `:` into the numbers of the hour, the minute and the
/// second.
proof fn lemma_time_part(f: Fields)
    requires
        f.valid(),
        f.hour is Some,
    ensures
        time_text(f).len() > 0,
        parse_field(split_three(Some(time_text(f)), ':').0) == Some(f.hour),
        parse_field(split_three(Some(time_text(f)), ':').1) == Some(f.minute),
        parse_field(split_three(Some(time_text(f)), ':').2) == Some(f.second),
{
    let hour = digits2(f.hour->0 as nat);
    lemma_digits2(f.hour->0 as nat);
    lemma_split_fields(hour, ':', f.minute, f.second);
    assert(hour.len() == 2);
}

/// The text of the date of a timestamp.
pub open spec fn date_text(f: Fields) -> Seq<char> {
    digits4(f.year as nat) + part('-', f.month) + part('-', f.day)
}

/// The text of the time of day of a timestamp that has one.
pub open spec fn time_text(f: Fields) -> Seq<char> {
    digits2(f.hour->0 as nat) + part(':', f.minute) + part(':', f.second)
}

/// The text of a timestamp is its date, and behind a `T` its time of day
/// where it has one.
proof fn lemma_format_parts(f: Fields)
    requires
        f.valid(),
    ensures
        f.format() == if f.hour is Some {
            date_text(f) + seq!['T'] + time_text(f)
        } else {
            date_text(f)
        },
{
    match f.hour {
        Some(h) => {
            assert(part('T', f.hour) =~= seq!['T'] + digits2(h as nat));
            assert(f.format() =~= date_text(f) + seq!['T'] + time_text(f));
        },
        None => {
            assert(f.format() =~= date_text(f));
        },
    }
}

/// The text of a timestamp spells that timestamp: formatting valid fields
/// and parsing the text gives the fields back, at every granularity.
pub proof fn lemma_parse_format(f: Fields)
    requires
        f.valid(),
    ensures
        spec_parse(f.format()) == Some(f),
{
    lemma_format_parts(f);
    lemma_date_part(f);
    let date = date_text(f);
    if f.hour is Some {
        let time = time_text(f);
        lemma_time_part(f);
        lemma_split_at(date, 'T', time);
        assert(split_once(f.format(), 'T') == (date, Some(time)));
    } else {
        lemma_split_none(date, 'T');
        assert(split_once(f.format(), 'T') == (date, None::<Seq<char>>));
        assert(split_three(None, ':') == (None::<Seq<char>>, None::<Seq<char>>, None::<Seq<char>>));
        assert(parse_field(None) == Some(None::<u8>));
    }
}

/// The failure of `Timestamp::parse`: the text spells no timestamp.
#[derive(Clone, Copy, Debug, PartialEq, Eq)]
pub struct TimestampParseError(());

impl TimestampParseError {
    /// What the failure says.
    pub fn message(&self) -> (m: &'static str)
        ensures
            m@ == "invalid timestamp syntax"@,
    {
        "invalid timestamp syntax"
    }
}

#[derive(Clone, Copy, Debug, PartialEq, Eq, Structural, PartialOrd, Ord)]
pub(crate) enum Inner {
    Ymdhms { y: u16, m: u8, d: u8, h: u8, mi: u8, s: u8 },
    Ymdhm { y: u16, m: u8, d: u8, h: u8, mi: u8 },
    Ymdh { y: u16, m: u8, d: u8, h: u8 },
    Ymd { y: u16, m: u8, d: u8 },
    Ym { y: u16, m: u8 },
    Y { y: u16 },
}

/// A date and time of one of six granularities, from a year alone to a
/// full date with hour, minute and second. Its fields are always in range.
///
/// Timestamps are ordered by their granularity, the finest first, and
/// within one granularity by their fields, from the year down.
#[derive(Clone, Copy, Debug, PartialEq, Eq, Structural, Ord)]
pub struct Timestamp(Inner);

impl View for Timestamp {
    type V = Fields;

    closed spec fn view(&self) -> Fields {
        match self.0 {
            Inner::Ymdhms { y, m, d, h, mi, s } => Fields {
                year: y,
                month: Some(m),
                day: Some(d),
                hour: Some(h),
                minute: Some(mi),
                second: Some(s),
            },
            Inner::Ymdhm { y, m, d, h, mi } => Fields {
                year: y,
                month: Some(m),
                day: Some(d),
                hour: Some(h),
                minute: Some(mi),
                second: None,
            },
            Inner::Ymdh { y, m, d, h } => Fields {
                year: y,
                month: Some(m),
                day: Some(d),
                hour: Some(h),
                minute: None,
                second: None,
            },
            Inner::Ymd { y, m, d } => Fields {
                year: y,
                month: Some(m),
                day: Some(d),
                hour: None,
                minute: None,
                second: None,
            },
            Inner::Ym { y, m } => Fields {
                year: y,
                month: Some(m),
                day: None,
                hour: None,
                minute: None,
                second: None,
            },
            Inner::Y { y } => Fields {
                year: y,
                month: None,
                day: None,
                hour: None,
                minute: None,
                second: None,
            },
        }
    }
}

impl Timestamp {
    #[verifier::type_invariant]
    spec fn in_range(&self) -> bool {
        self@.valid()
    }

    /// Two timestamps with the same fields are the same timestamp.
    pub proof fn lemma_view_injective(a: Timestamp, b: Timestamp)
        requires
            a@ == b@,
        ensures
            a == b,
    {
    }

    /// A timestamp of the granularity that the present fields give. A
    /// field may be present only where every coarser one is.
    pub fn new(
        y: u16,
        m: Option<u8>,
        d: Option<u8>,
        h: Option<u8>,
        mi: Option<u8>,
        s: Option<u8>,
    ) -> (r: Option<Self>)
        requires
            m is None ==> d is None,
            d is None ==> h is None,
            h is None ==> mi is None,
            mi is None ==> s is None,
        ensures
            r is Some <==> (Fields { year: y, month: m, day: d, hour: h, minute: mi, second: s })
                .valid(),
            r matches Some(t) ==> t@ == (Fields {
                year: y,
                month: m,
                day: d,
                hour: h,
                minute: mi,
                second: s,
            }),
    {
        let m: u8 = match m {
            Some(m) => m,
            None => {
                return Self::new_y(y);
            },
        };
        let d: u8 = match d {
            Some(d) => d,
            None => {
                return Self::new_ym(y, m);
            },
        };
        let h: u8 = match h {
            Some(h) => h,
            None => {
                return Self::new_ymd(y, m, d);
            },
        };
        let mi: u8 = match mi {
            Some(mi) => mi,
            None => {
                return Self::new_ymdh(y, m, d, h);
            },
        };
        let s: u8 = match s {
            Some(s) => s,
            None => {
                return Self::new_ymdhm(y, m, d, h, mi);
            },
        };
        Self::new_ymdhms(y, m, d, h, mi, s)
    }

    pub fn new_ymdhms(y: u16, m: u8, d: u8, h: u8, mi: u8, s: u8) -> (r: Option<Self>)
        ensures
            r is Some <==> y <= 9999 && 1 <= m <= 12 && 1 <= d <= 31 && h <= 23 && mi <= 59 && s
                <= 59,
            r matches Some(t) ==> t@ == (Fields {
                year: y,
                month: Some(m),
                day: Some(d),
                hour: Some(h),
                minute: Some(mi),
                second: Some(s),
            }),
    {
        if Self::check_y(y) && Self::check_m(m) && Self::check_d(d) && Self::check_h(h)
            && Self::check_mi(mi) && Self::check_s(s) {
            Some(Timestamp(Inner::Ymdhms { y, m, d, h, mi, s }))
        } else {
            None
        }
    }

    pub fn new_ymdhm(y: u16, m: u8, d: u8, h: u8, mi: u8) -> (r: Option<Self>)
        ensures
            r is Some <==> y <= 9999 && 1 <= m <= 12 && 1 <= d <= 31 && h <= 23 && mi <= 59,
            r matches Some(t) ==> t@ == (Fields {
                year: y,
                month: Some(m),
                day: Some(d),
                hour: Some(h),
                minute: Some(mi),
                second: None,
            }),
    {
        if Self::check_y(y) && Self::check_m(m) && Self::check_d(d) && Self::check_h(h)
            && Self::check_mi(mi) {
            Some(Timestamp(Inner::Ymdhm { y, m, d, h, mi }))
        } else {
            None
        }
    }

    pub fn new_ymdh(y: u16, m: u8, d: u8, h: u8) -> (r: Option<Self>)
        ensures
            r is Some <==> y <= 9999 && 1 <= m <= 12 && 1 <= d <= 31 && h <= 23,
            r matches Some(t) ==> t@ == (Fields {
                year: y,
                month: Some(m),
                day: Some(d),
                hour: Some(h),
                minute: None,
                second: None,
            }),
    {
        if Self::check_y(y) && Self::check_m(m) && Self::check_d(d) && Self::check_h(h) {
            Some(Timestamp(Inner::Ymdh { y, m, d, h }))
        } else {
            None
        }
    }

    pub fn new_ymd(y: u16, m: u8, d: u8) -> (r: Option<Self>)
        ensures
            r is Some <==> y <= 9999 && 1 <= m <= 12 && 1 <= d <= 31,
            r matches Some(t) ==> t@ == (Fields {
                year: y,
                month: Some(m),
                day: Some(d),
                hour: None,
                minute: None,
                second: None,
            }),
    {
        if Self::check_y(y) && Self::check_m(m) && Self::check_d(d) {
            Some(Timestamp(Inner::Ymd { y, m, d }))
        } else {
            None
        }
    }

    pub fn new_ym(y: u16, m: u8) -> (r: Option<Self>)
        ensures
            r is Some <==> y <= 9999 && 1 <= m <= 12,
            r matches Some(t) ==> t@ == (Fields {
                year: y,
                month: Some(m),
                day: None,
                hour: None,
                minute: None,
                second: None,
            }),
    {
        if Self::check_y(y) && Self::check_m(m) {
            Some(Timestamp(Inner::Ym { y, m }))
        } else {
            None
        }
    }

    pub fn new_y(y: u16) -> (r: Option<Self>)
        ensures
            r is Some <==> y <= 9999,
            r matches Some(t) ==> t@ == (Fields {
                year: y,
                month: None,
                day: None,
                hour: None,
                minute: None,
                second: None,
            }),
    {
        if Self::check_y(y) {
            Some(Timestamp(Inner::Y { y }))
        } else {
            None
        }
    }

    pub fn year(&self) -> (r: u16)
        ensures
            r == self@.year,
            self@.valid(),
    {
        proof {
            use_type_invariant(self);
        }
        match self.0 {
            Inner::Ymdhms { y, .. } => y,
            Inner::Ymdhm { y, .. } => y,
            Inner::Ymdh { y, .. } => y,
            Inner::Ymd { y, .. } => y,
            Inner::Ym { y, .. } => y,
            Inner::Y { y } => y,
        }
    }

    pub fn month(&self) -> (r: Option<u8>)
        ensures
            r == self@.month,
            self@.valid(),
    {
        proof {
            use_type_invariant(self);
        }
        match self.0 {
            Inner::Ymdhms { m, .. } => Some(m),
            Inner::Ymdhm { m, .. } => Some(m),
            Inner::Ymdh { m, .. } => Some(m),
            Inner::Ymd { m, .. } => Some(m),
            Inner::Ym { m, .. } => Some(m),
            Inner::Y { .. } => None,
        }
    }

    pub fn day(&self) -> (r: Option<u8>)
        ensures
            r == self@.day,
            self@.valid(),
    {
        proof {
            use_type_invariant(self);
        }
        match self.0 {
            Inner::Ymdhms { d, .. } => Some(d),
            Inner::Ymdhm { d, .. } => Some(d),
            Inner::Ymdh { d, .. } => Some(d),
            Inner::Ymd { d, .. } => Some(d),
            Inner::Ym { .. } => None,
            Inner::Y { .. } => None,
        }
    }

    pub fn hour(&self) -> (r: Option<u8>)
        ensures
            r == self@.hour,
            self@.valid(),
    {
        proof {
            use_type_invariant(self);
        }
        match self.0 {
            Inner::Ymdhms { h, .. } => Some(h),
            Inner::Ymdhm { h, .. } => Some(h),
            Inner::Ymdh { h, .. } => Some(h),
            Inner::Ymd { .. } => None,
            Inner::Ym { .. } => None,
            Inner::Y { .. } => None,
        }
    }

    pub fn minute(&self) -> (r: Option<u8>)
        ensures
            r == self@.minute,
            self@.valid(),
    {
        proof {
            use_type_invariant(self);
        }
        match self.0 {
            Inner::Ymdhms { mi, .. } => Some(mi),
            Inner::Ymdhm { mi, .. } => Some(mi),
            Inner::Ymdh { .. } => None,
            Inner::Ymd { .. } => None,
            Inner::Ym { .. } => None,
            Inner::Y { .. } => None,
        }
    }

    pub fn second(&self) -> (r: Option<u8>)
        ensures
            r == self@.second,
            self@.valid(),
    {
        proof {
            use_type_invariant(self);
        }
        match self.0 {
            Inner::Ymdhms { s, .. } => Some(s),
            Inner::Ymdhm { .. } => None,
            Inner::Ymdh { .. } => None,
            Inner::Ymd { .. } => None,
            Inner::Ym { .. } => None,
            Inner::Y { .. } => None,
        }
    }

    /// The canonical text of the timestamp.
    pub fn to_string(&self) -> (r: String)
        ensures
            r@ == self@.format(),
    {
        proof {
            use_type_invariant(self);
        }
        let mut r: String = String::new();
        push_digits4(&mut r, self.year());
        push_part(&mut r, '-', self.month());
        push_part(&mut r, '-', self.day());
        push_part(&mut r, 'T', self.hour());
        push_part(&mut r, ':', self.minute());
        push_part(&mut r, ':', self.second());
        assert(r@ =~= self@.format());
        r
    }

    /// Formatting a timestamp and parsing the text gives an equal
    /// timestamp back: the text spells the fields of `t`, and a timestamp
    /// with these fields is `t`.
    pub proof fn lemma_round_trip(t: Timestamp, parsed: Timestamp)
        requires
            t@.valid(),
            spec_parse(t@.format()) == Some(parsed@),
        ensures
            parsed == t,
    {
        lemma_parse_format(t@);
        Self::lemma_view_injective(parsed, t);
    }

    /// Reads a timestamp from its text.
    pub fn parse(s: &str) -> (r: Result<Timestamp, TimestampParseError>)
        ensures
            match r {
                Ok(t) => spec_parse(s@) == Some(t@),
                Err(_) => spec_parse(s@) is None,
            },
    {
        let v: Vec<char> = chars_of(s);
        let (date, time_raw) = split_at_first(&v, 'T');
        let time: Option<Vec<char>> = match time_raw {
            Some(t) => if t.len() > 0 {
                Some(t)
            } else {
                None
            },
            None => None,
        };
        let (ys, ms, ds) = split_in_three(Some(date), '-');
        let (hs, mis, ss) = split_in_three(time, ':');
        let y: u16 = match ys {
            Some(t) => match number(&t, 0xffff) {
                Some(y) => y as u16,
                None => {
                    return Err(TimestampParseError(()));
                },
            },
            None => {
                return Err(TimestampParseError(()));
            },
        };
        let m: Option<u8> = match field(&ms) {
            Some(m) => m,
            None => {
                return Err(TimestampParseError(()));
            },
        };
        let d: Option<u8> = match field(&ds) {
            Some(d) => d,
            None => {
                return Err(TimestampParseError(()));
            },
        };
        let h: Option<u8> = match field(&hs) {
            Some(h) => h,
            None => {
                return Err(TimestampParseError(()));
            },
        };
        let mi: Option<u8> = match field(&mis) {
            Some(mi) => mi,
            None => {
                return Err(TimestampParseError(()));
            },
        };
        let sec: Option<u8> = match field(&ss) {
            Some(sec) => sec,
            None => {
                return Err(TimestampParseError(()));
            },
        };
        if (m.is_none() && d.is_some()) || (d.is_none() && h.is_some()) || (h.is_none()
            && mi.is_some()) || (mi.is_none() && sec.is_some()) {
            return Err(TimestampParseError(()));
        }
        match Timestamp::new(y, m, d, h, mi, sec) {
            Some(t) => Ok(t),
            None => Err(TimestampParseError(())),
        }
    }

    fn check_y(y: u16) -> (ok: bool)
        ensures
            ok == (y <= 9999),
    {
        y <= 9999
    }

    fn check_m(m: u8) -> (ok: bool)
        ensures
            ok == (1 <= m <= 12),
    {
        m >= 1 && m <= 12
    }

    fn check_d(d: u8) -> (ok: bool)
        ensures
            ok == (1 <= d <= 31),
    {
        d >= 1 && d <= 31
    }

    fn check_h(h: u8) -> (ok: bool)
        ensures
            ok == (h <= 23),
    {
        h <= 23
    }

    fn check_mi(mi: u8) -> (ok: bool)
        ensures
            ok == (mi <= 59),
    {
        mi <= 59
    }

    fn check_s(s: u8) -> (ok: bool)
        ensures
            ok == (s <= 59),
    {
        s <= 59
    }
}

/// The rank of a granularity in the order of timestamps: 0 for a
/// timestamp with a second, up to 5 for a year alone.
pub open spec fn rank(f: Fields) -> u8 {
    if f.second is Some {
        0
    } else if f.minute is Some {
        1
    } else if f.hour is Some {
        2
    } else if f.day is Some {
        3
    } else if f.month is Some {
        4
    } else {
        5
    }
}

/// The order that two comparisons of a pair of numbers stand for.
pub open spec fn order(less: bool, greater: bool) -> Ordering {
    if less {
        Ordering::Less
    } else if greater {
        Ordering::Greater
    } else {
        Ordering::Equal
    }
}

/// The number of a field, 0 where it is absent.
pub open spec fn number_of(v: Option<u8>) -> u8 {
    match v {
        Some(x) => x,
        None => 0,
    }
}

/// How the fields of two timestamps compare: by granularity, then by the
/// fields from the year down.
pub open spec fn compare_fields(a: Fields, b: Fields) -> Ordering {
    if rank(a) != rank(b) {
        order(rank(a) < rank(b), rank(a) > rank(b))
    } else if a.year != b.year {
        order(a.year < b.year, a.year > b.year)
    } else if number_of(a.month) != number_of(b.month) {
        order(number_of(a.month) < number_of(b.month), number_of(a.month) > number_of(b.month))
    } else if number_of(a.day) != number_of(b.day) {
        order(number_of(a.day) < number_of(b.day), number_of(a.day) > number_of(b.day))
    } else if number_of(a.hour) != number_of(b.hour) {
        order(number_of(a.hour) < number_of(b.hour), number_of(a.hour) > number_of(b.hour))
    } else if number_of(a.minute) != number_of(b.minute) {
        order(
            number_of(a.minute) < number_of(b.minute),
            number_of(a.minute) > number_of(b.minute),
        )
    } else {
        order(
            number_of(a.second) < number_of(b.second),
            number_of(a.second) > number_of(b.second),
        )
    }
}

fn order_of(less: bool, greater: bool) -> (r: Ordering)
    ensures
        r == order(less, greater),
{
    if less {
        Ordering::Less
    } else if greater {
        Ordering::Greater
    } else {
        Ordering::Equal
    }
}

fn field_number(v: Option<u8>) -> (r: u8)
    ensures
        r == number_of(v),
{
    match v {
        Some(x) => x,
        None => 0,
    }
}

impl Timestamp {
    fn rank(&self) -> (r: u8)
        ensures
            r == rank(self@),
    {
        match self.0 {
            Inner::Ymdhms { .. } => 0,
            Inner::Ymdhm { .. } => 1,
            Inner::Ymdh { .. } => 2,
            Inner::Ymd { .. } => 3,
            Inner::Ym { .. } => 4,
            Inner::Y { .. } => 5,
        }
    }
}

impl PartialOrd for Timestamp {
    fn partial_cmp(&self, other: &Self) -> (r: Option<Ordering>) {
        let a: u8 = self.rank();
        let b: u8 = other.rank();
        if a != b {
            return Some(order_of(a < b, a > b));
        }
        if self.year() != other.year() {
            return Some(order_of(self.year() < other.year(), self.year() > other.year()));
        }
        let a: u8 = field_number(self.month());
        let b: u8 = field_number(other.month());
        if a != b {
            return Some(order_of(a < b, a > b));
        }
        let a: u8 = field_number(self.day());
        let b: u8 = field_number(other.day());
        if a != b {
            return Some(order_of(a < b, a > b));
        }
        let a: u8 = field_number(self.hour());
        let b: u8 = field_number(other.hour());
        if a != b {
            return Some(order_of(a < b, a > b));
        }
        let a: u8 = field_number(self.minute());
        let b: u8 = field_number(other.minute());
        if a != b {
            return Some(order_of(a < b, a > b));
        }
        let a: u8 = field_number(self.second());
        let b: u8 = field_number(other.second());
        Some(order_of(a < b, a > b))
    }
}

impl PartialOrdSpecImpl for Timestamp {
    open spec fn obeys_partial_cmp_spec() -> bool {
        true
    }

    open spec fn partial_cmp_spec(&self, other: &Self) -> Option<Ordering> {
        Some(compare_fields(self@, other@))
    }
}

impl std::str::FromStr for Timestamp {
    type Err = TimestampParseError;

    /// Reads a timestamp from its text, as `Timestamp::parse` does.
    fn from_str(s: &str) -> (r: Result<Self, Self::Err>)
        ensures
            match r {
                Ok(t) => spec_parse(s@) == Some(t@),
                Err(_) => spec_parse(s@) is None,
            },
    {
        Timestamp::parse(s)
    }
}

} // verus!
