//! The timestamp that names a post: fourteen digits, `YYYYMMDDHHMMSS`.
//!
//! The file stem is the sole source of a post's identity and of the
//! chronological order, so parsing and formatting must round-trip without
//! loss. The timestamp is read as civil time at a fixed UTC+8 offset; since
//! every post carries the same offset, the order of the fields is the order
//! of the posts.

use vstd::prelude::*;

use crate::text::{digit_char, digit_val, is_digit_char, lemma_digit_char_val};

verus! {

/// A calendar timestamp, second precision, fixed UTC+8 offset.
#[derive(Debug, Clone, Copy, PartialEq, Eq, Structural)]
pub struct Timestamp {
    pub year: u16,
    pub month: u8,
    pub day: u8,
    pub hour: u8,
    pub minute: u8,
    pub second: u8,
}

pub open spec fn is_leap_year(y: int) -> bool {
    (y % 4 == 0 && y % 100 != 0) || y % 400 == 0
}

pub open spec fn days_in_month(y: int, m: int) -> int {
    if m == 2 {
        if is_leap_year(y) {
            29
        } else {
            28
        }
    } else if m == 4 || m == 6 || m == 9 || m == 11 {
        30
    } else {
        31
    }
}

/// A well-formed timestamp: four-digit year and a valid Gregorian
/// calendar date and time of day.
pub open spec fn ts_wf(t: Timestamp) -> bool {
    &&& t.year <= 9999
    &&& 1 <= t.month <= 12
    &&& 1 <= t.day <= days_in_month(t.year as int, t.month as int)
    &&& t.hour <= 23
    &&& t.minute <= 59
    &&& t.second <= 59
}

/// The number written by a sequence of decimal digit characters.
pub open spec fn num_val(s: Seq<char>) -> int
    decreases s.len(),
{
    if s.len() == 0 {
        0
    } else {
        num_val(s.drop_last()) * 10 + digit_val(s.last())
    }
}

pub open spec fn all_digits(s: Seq<char>) -> bool {
    forall|i: int| 0 <= i < s.len() ==> is_digit_char(#[trigger] s[i])
}

/// The six fields read from a fourteen-digit sequence.
pub open spec fn ts_fields_of(s: Seq<char>) -> Timestamp
    recommends
        s.len() == 14,
{
    Timestamp {
        year: num_val(s.subrange(0, 4)) as u16,
        month: num_val(s.subrange(4, 6)) as u8,
        day: num_val(s.subrange(6, 8)) as u8,
        hour: num_val(s.subrange(8, 10)) as u8,
        minute: num_val(s.subrange(10, 12)) as u8,
        second: num_val(s.subrange(12, 14)) as u8,
    }
}

/// What parsing a file stem yields: a timestamp exactly when the stem is
/// fourteen decimal digits naming a valid calendar date and time.
pub open spec fn parse_timestamp_spec(s: Seq<char>) -> Option<Timestamp> {
    if s.len() == 14 && all_digits(s) {
        let t = ts_fields_of(s);
        if ts_wf(t) {
            Some(t)
        } else {
            None
        }
    } else {
        None
    }
}

pub open spec fn two_digits_spec(v: int) -> Seq<char> {
    seq![digit_char(v / 10 % 10), digit_char(v % 10)]
}

pub open spec fn four_digits_spec(v: int) -> Seq<char> {
    seq![
        digit_char(v / 1000 % 10),
        digit_char(v / 100 % 10),
        digit_char(v / 10 % 10),
        digit_char(v % 10),
    ]
}

/// The canonical identifier of a timestamp: the fourteen digits back again.
pub open spec fn id_spec(t: Timestamp) -> Seq<char> {
    four_digits_spec(t.year as int) + two_digits_spec(t.month as int) + two_digits_spec(
        t.day as int,
    ) + two_digits_spec(t.hour as int) + two_digits_spec(t.minute as int) + two_digits_spec(
        t.second as int,
    )
}

/// The fields packed into one number; compares as the timestamps do.
pub open spec fn key_spec(t: Timestamp) -> int {
    ((((t.year as int * 100 + t.month as int) * 100 + t.day as int) * 100 + t.hour as int) * 100
        + t.minute as int) * 100 + t.second as int
}

fn is_digit(c: char) -> (r: bool)
    ensures
        r == is_digit_char(c),
{
    let n: u32 = c as u32;
    0x30 <= n && n <= 0x39
}

fn digit_at(s: &str, i: usize) -> (d: u8)
    requires
        i < s@.len(),
        is_digit_char(s@[i as int]),
    ensures
        d as int == digit_val(s@[i as int]),
        d <= 9,
{
    let c: char = s.get_char(i);
    let n: u32 = c as u32;
    (n - 0x30) as u8
}

fn leap_year(y: u16) -> (r: bool)
    ensures
        r == is_leap_year(y as int),
{
    (y % 4 == 0 && y % 100 != 0) || y % 400 == 0
}

fn month_days(year: u16, month: u8) -> (r: u8)
    requires
        1 <= month <= 12,
    ensures
        r as int == days_in_month(year as int, month as int),
{
    if month == 2 {
        if leap_year(year) {
            29
        } else {
            28
        }
    } else if month == 4 || month == 6 || month == 9 || month == 11 {
        30
    } else {
        31
    }
}

proof fn lemma_num_val1(s: Seq<char>)
    requires
        s.len() == 1,
    ensures
        num_val(s) == digit_val(s[0]),
{
    assert(s.drop_last() =~= Seq::<char>::empty());
    assert(num_val(Seq::<char>::empty()) == 0);
    assert(s.last() == s[0]);
}

proof fn lemma_num_val2(s: Seq<char>)
    requires
        s.len() == 2,
    ensures
        num_val(s) == digit_val(s[0]) * 10 + digit_val(s[1]),
{
    lemma_num_val1(s.drop_last());
    assert(s.drop_last()[0] == s[0]);
}

proof fn lemma_num_val3(s: Seq<char>)
    requires
        s.len() == 3,
    ensures
        num_val(s) == digit_val(s[0]) * 100 + digit_val(s[1]) * 10 + digit_val(s[2]),
{
    lemma_num_val2(s.drop_last());
    assert(s.drop_last()[0] == s[0]);
    assert(s.drop_last()[1] == s[1]);
}

proof fn lemma_num_val4(s: Seq<char>)
    requires
        s.len() == 4,
    ensures
        num_val(s) == digit_val(s[0]) * 1000 + digit_val(s[1]) * 100 + digit_val(s[2]) * 10
            + digit_val(s[3]),
{
    lemma_num_val3(s.drop_last());
    assert(s.drop_last()[0] == s[0]);
    assert(s.drop_last()[1] == s[1]);
    assert(s.drop_last()[2] == s[2]);
}

/// Parse a file stem as a timestamp. Returns a timestamp exactly when the
/// stem is fourteen decimal digits naming a valid date and time.
pub fn parse_timestamp(s: &str) -> (r: Option<Timestamp>)
    ensures
        r == parse_timestamp_spec(s@),
        r matches Some(t) ==> ts_wf(t),
{
    let n: usize = s.unicode_len();
    if n != 14 {
        return None;
    }
    let mut i: usize = 0;
    while i < 14
        invariant
            s@.len() == 14,
            0 <= i <= 14,
            forall|j: int| 0 <= j < i ==> is_digit_char(#[trigger] s@[j]),
        decreases 14 - i,
    {
        if !is_digit(s.get_char(i)) {
            return None;
        }
        i = i + 1;
    }
    let year: u16 = digit_at(s, 0) as u16 * 1000 + digit_at(s, 1) as u16 * 100 + digit_at(s, 2)
        as u16 * 10 + digit_at(s, 3) as u16;
    let month: u8 = digit_at(s, 4) * 10 + digit_at(s, 5);
    let day: u8 = digit_at(s, 6) * 10 + digit_at(s, 7);
    let hour: u8 = digit_at(s, 8) * 10 + digit_at(s, 9);
    let minute: u8 = digit_at(s, 10) * 10 + digit_at(s, 11);
    let second: u8 = digit_at(s, 12) * 10 + digit_at(s, 13);
    proof {
        lemma_num_val4(s@.subrange(0, 4));
        lemma_num_val2(s@.subrange(4, 6));
        lemma_num_val2(s@.subrange(6, 8));
        lemma_num_val2(s@.subrange(8, 10));
        lemma_num_val2(s@.subrange(10, 12));
        lemma_num_val2(s@.subrange(12, 14));
    }
    let t = Timestamp { year, month, day, hour, minute, second };
    assert(t == ts_fields_of(s@));
    if month < 1 || month > 12 {
        return None;
    }
    if day < 1 || day > month_days(year, month) {
        return None;
    }
    if hour > 23 || minute > 59 || second > 59 {
        return None;
    }
    Some(t)
}

fn digit_str(d: u8) -> (r: &'static str)
    requires
        d <= 9,
    ensures
        r@ == seq![digit_char(d as int)],
{
    match d {
        0 => {
            proof {
                reveal_strlit("0");
                assert("0"@ =~= seq![digit_char(0)]);
            }
            "0"
        },
        1 => {
            proof {
                reveal_strlit("1");
                assert("1"@ =~= seq![digit_char(1)]);
            }
            "1"
        },
        2 => {
            proof {
                reveal_strlit("2");
                assert("2"@ =~= seq![digit_char(2)]);
            }
            "2"
        },
        3 => {
            proof {
                reveal_strlit("3");
                assert("3"@ =~= seq![digit_char(3)]);
            }
            "3"
        },
        4 => {
            proof {
                reveal_strlit("4");
                assert("4"@ =~= seq![digit_char(4)]);
            }
            "4"
        },
        5 => {
            proof {
                reveal_strlit("5");
                assert("5"@ =~= seq![digit_char(5)]);
            }
            "5"
        },
        6 => {
            proof {
                reveal_strlit("6");
                assert("6"@ =~= seq![digit_char(6)]);
            }
            "6"
        },
        7 => {
            proof {
                reveal_strlit("7");
                assert("7"@ =~= seq![digit_char(7)]);
            }
            "7"
        },
        8 => {
            proof {
                reveal_strlit("8");
                assert("8"@ =~= seq![digit_char(8)]);
            }
            "8"
        },
        _ => {
            proof {
                reveal_strlit("9");
                assert("9"@ =~= seq![digit_char(9)]);
            }
            "9"
        },
    }
}

fn two_digit_string(n: u8) -> (r: String)
    requires
        n <= 99,
    ensures
        r@ == two_digits_spec(n as int),
{
    let mut r = String::from_str(digit_str(n / 10));
    r.append(digit_str(n % 10));
    proof {
        assert(seq![digit_char(n as int / 10)] + seq![digit_char(n as int % 10)] =~= two_digits_spec(
            n as int,
        ));
    }
    r
}

fn four_digit_string(n: u16) -> (r: String)
    requires
        n <= 9999,
    ensures
        r@ == four_digits_spec(n as int),
{
    let mut r = String::from_str(digit_str((n / 1000) as u8));
    r.append(digit_str((n / 100 % 10) as u8));
    r.append(digit_str((n / 10 % 10) as u8));
    r.append(digit_str((n % 10) as u8));
    proof {
        assert(seq![digit_char(n as int / 1000)] + seq![digit_char(n as int / 100 % 10)] + seq![
            digit_char(n as int / 10 % 10),
        ] + seq![digit_char(n as int % 10)] =~= four_digits_spec(n as int));
    }
    r
}

impl Timestamp {
    /// The canonical fourteen-digit form, `YYYYMMDDHHMMSS`.
    pub fn id_string(&self) -> (r: String)
        requires
            ts_wf(*self),
        ensures
            r@ == id_spec(*self),
    {
        let mut r = four_digit_string(self.year);
        r.append(two_digit_string(self.month).as_str());
        r.append(two_digit_string(self.day).as_str());
        r.append(two_digit_string(self.hour).as_str());
        r.append(two_digit_string(self.minute).as_str());
        r.append(two_digit_string(self.second).as_str());
        r
    }

    /// The four-digit year, as the index page groups posts.
    pub fn year_string(&self) -> (r: String)
        requires
            ts_wf(*self),
        ensures
            r@ == four_digits_spec(self.year as int),
    {
        four_digit_string(self.year)
    }

    /// The two-digit month, as the index page groups posts.
    pub fn month_string(&self) -> (r: String)
        requires
            ts_wf(*self),
        ensures
            r@ == two_digits_spec(self.month as int),
    {
        two_digit_string(self.month)
    }

    /// The fields packed into one comparable number.
    pub fn key(&self) -> (r: u64)
        requires
            ts_wf(*self),
        ensures
            r as int == key_spec(*self),
    {
        let mut k: u64 = self.year as u64;
        k = k * 100 + self.month as u64;
        k = k * 100 + self.day as u64;
        k = k * 100 + self.hour as u64;
        k = k * 100 + self.minute as u64;
        k = k * 100 + self.second as u64;
        k
    }
}

/// Parsing and formatting lose nothing: a stem that parses is the
/// identifier of the timestamp it parses to, character for character.
pub proof fn lemma_parse_id_round_trip(s: Seq<char>, t: Timestamp)
    requires
        parse_timestamp_spec(s) == Some(t),
    ensures
        id_spec(t) == s,
{
    assert(s.len() == 14 && all_digits(s));
    assert(t == ts_fields_of(s));
    let sy = s.subrange(0, 4);
    let smo = s.subrange(4, 6);
    let sd = s.subrange(6, 8);
    let sh = s.subrange(8, 10);
    let smi = s.subrange(10, 12);
    let sse = s.subrange(12, 14);
    lemma_num_val4(sy);
    lemma_num_val2(smo);
    lemma_num_val2(sd);
    lemma_num_val2(sh);
    lemma_num_val2(smi);
    lemma_num_val2(sse);
    lemma_four_digit_split(num_val(sy), sy[0], sy[1], sy[2], sy[3]);
    lemma_two_digit_split(num_val(smo), smo[0], smo[1]);
    lemma_two_digit_split(num_val(sd), sd[0], sd[1]);
    lemma_two_digit_split(num_val(sh), sh[0], sh[1]);
    lemma_two_digit_split(num_val(smi), smi[0], smi[1]);
    lemma_two_digit_split(num_val(sse), sse[0], sse[1]);
    assert(four_digits_spec(t.year as int) =~= sy);
    assert(two_digits_spec(t.month as int) =~= smo);
    assert(two_digits_spec(t.day as int) =~= sd);
    assert(two_digits_spec(t.hour as int) =~= sh);
    assert(two_digits_spec(t.minute as int) =~= smi);
    assert(two_digits_spec(t.second as int) =~= sse);
    assert(id_spec(t) =~= s);
}

proof fn lemma_two_digit_split(v: int, c0: char, c1: char)
    requires
        is_digit_char(c0),
        is_digit_char(c1),
        v == digit_val(c0) * 10 + digit_val(c1),
    ensures
        v / 10 % 10 == digit_val(c0),
        v % 10 == digit_val(c1),
        0 <= v <= 99,
        digit_char(v / 10 % 10) == c0,
        digit_char(v % 10) == c1,
{
    lemma_digit_char_val(c0);
    lemma_digit_char_val(c1);
}

proof fn lemma_four_digit_split(v: int, c0: char, c1: char, c2: char, c3: char)
    requires
        is_digit_char(c0),
        is_digit_char(c1),
        is_digit_char(c2),
        is_digit_char(c3),
        v == digit_val(c0) * 1000 + digit_val(c1) * 100 + digit_val(c2) * 10 + digit_val(c3),
    ensures
        v / 1000 % 10 == digit_val(c0),
        v / 100 % 10 == digit_val(c1),
        v / 10 % 10 == digit_val(c2),
        v % 10 == digit_val(c3),
        0 <= v <= 9999,
        digit_char(v / 1000 % 10) == c0,
        digit_char(v / 100 % 10) == c1,
        digit_char(v / 10 % 10) == c2,
        digit_char(v % 10) == c3,
{
    lemma_digit_char_val(c0);
    lemma_digit_char_val(c1);
    lemma_digit_char_val(c2);
    lemma_digit_char_val(c3);
    let d0 = digit_val(c0);
    let d1 = digit_val(c1);
    let d2 = digit_val(c2);
    let d3 = digit_val(c3);
    assert(v / 10 == d0 * 100 + d1 * 10 + d2);
    assert(v / 100 == d0 * 10 + d1);
    assert(v / 1000 == d0);
}

} // verus!
