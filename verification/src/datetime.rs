//! Calendar timestamps as plain values: parsing from ISO-8601 text,
//! rendering back to ISO-8601 and to the display form used on pages, and
//! ordering. Dates persist as text and only their fields matter to the
//! build, so the library models them directly instead of carrying an
//! outside date type through its logic.

use vstd::prelude::*;

use crate::shortcode::{digit_val, digits_len, digits_value, is_digit};
use crate::strutil::{push_char, str_to_chars};

verus! {

/// A calendar timestamp, seconds precision, no time zone: the site
/// treats all dates as UTC.
#[derive(Debug, Clone, Copy, PartialEq, Eq, Structural)]
pub struct Timestamp {
    pub year: u16,
    pub month: u8,
    pub day: u8,
    pub hour: u8,
    pub minute: u8,
    pub second: u8,
}

/// Whether `y` is a leap year.
pub open spec fn spec_is_leap(y: int) -> bool {
    y % 4 == 0 && (y % 100 != 0 || y % 400 == 0)
}

/// The number of days in a month.
pub open spec fn spec_days_in_month(y: int, m: int) -> int {
    if m == 2 {
        if spec_is_leap(y) {
            29
        } else {
            28
        }
    } else if m == 4 || m == 6 || m == 9 || m == 11 {
        30
    } else {
        31
    }
}

/// A well-formed timestamp: a real calendar date with in-range time
/// fields and a four-digit year.
pub open spec fn ts_valid(t: Timestamp) -> bool {
    &&& t.year <= 9999
    &&& 1 <= t.month <= 12
    &&& 1 <= t.day <= spec_days_in_month(t.year as int, t.month as int)
    &&& t.hour < 24
    &&& t.minute < 60
    &&& t.second < 60
}

/// Lexicographic order on (year, month, day, hour, minute, second):
/// earlier or equal.
pub open spec fn ts_le(a: Timestamp, b: Timestamp) -> bool {
    if a.year != b.year {
        a.year < b.year
    } else if a.month != b.month {
        a.month < b.month
    } else if a.day != b.day {
        a.day < b.day
    } else if a.hour != b.hour {
        a.hour < b.hour
    } else if a.minute != b.minute {
        a.minute < b.minute
    } else {
        a.second <= b.second
    }
}

/// Whether a timestamp is well-formed.
pub fn ts_is_valid(t: &Timestamp) -> (r: bool)
    ensures
        r == ts_valid(*t),
{
    let dim: u8 = if t.month == 2 {
        if t.year % 4 == 0 && (t.year % 100 != 0 || t.year % 400 == 0) {
            29
        } else {
            28
        }
    } else if t.month == 4 || t.month == 6 || t.month == 9 || t.month == 11 {
        30
    } else {
        31
    };
    t.year <= 9999 && 1 <= t.month && t.month <= 12 && 1 <= t.day && t.day <= dim && t.hour < 24
        && t.minute < 60 && t.second < 60
}

/// Whether `a` is earlier than or equal to `b`.
pub fn ts_before_eq(a: &Timestamp, b: &Timestamp) -> (r: bool)
    ensures
        r == ts_le(*a, *b),
{
    if a.year != b.year {
        a.year < b.year
    } else if a.month != b.month {
        a.month < b.month
    } else if a.day != b.day {
        a.day < b.day
    } else if a.hour != b.hour {
        a.hour < b.hour
    } else if a.minute != b.minute {
        a.minute < b.minute
    } else {
        a.second <= b.second
    }
}

/// The order is total: of any two timestamps, one is earlier or equal.
pub proof fn lemma_ts_le_total(a: Timestamp, b: Timestamp)
    ensures
        ts_le(a, b) || ts_le(b, a),
        ts_le(a, b) && ts_le(b, a) ==> a == b,
        ts_le(a, a),
{
}

/// The field values read from a timestamp string, before range checks:
/// a four-digit year, then `-`, one or two digit month, `-`, day, a `T`
/// or space separator, hour, `:`, minute, `:`, second, optionally
/// followed by `.` and fractional digits, which are ignored.
pub open spec fn spec_parse_fields(s: Seq<char>) -> Option<
    (int, int, int, int, int, int),
> {
    if !(s.len() >= 5 && digits_len(s, 0) == 4 && s[4] == '-') {
        None
    } else {
        let y = digits_value(s, 0, 4);
        let ml = digits_len(s, 5) as int;
        if !(1 <= ml <= 2 && s.len() > 5 + ml && s[5 + ml] == '-') {
            None
        } else {
            let m = digits_value(s, 5, 5 + ml);
            let dp = 5 + ml + 1;
            let dl = digits_len(s, dp) as int;
            if !(1 <= dl <= 2 && s.len() > dp + dl && (s[dp + dl] == 'T' || s[dp + dl] == ' ')) {
                None
            } else {
                let d = digits_value(s, dp, dp + dl);
                let hp = dp + dl + 1;
                let hl = digits_len(s, hp) as int;
                if !(1 <= hl <= 2 && s.len() > hp + hl && s[hp + hl] == ':') {
                    None
                } else {
                    let h = digits_value(s, hp, hp + hl);
                    let minp = hp + hl + 1;
                    let minl = digits_len(s, minp) as int;
                    if !(1 <= minl <= 2 && s.len() > minp + minl && s[minp + minl] == ':') {
                        None
                    } else {
                        let min = digits_value(s, minp, minp + minl);
                        let sp = minp + minl + 1;
                        let sl = digits_len(s, sp) as int;
                        if !(1 <= sl <= 2) {
                            None
                        } else {
                            let sec = digits_value(s, sp, sp + sl);
                            let fp = sp + sl;
                            if fp == s.len() {
                                Some((y, m, d, h, min, sec))
                            } else if s[fp] == '.' && digits_len(s, fp + 1) as int >= 1 && fp + 1
                                + digits_len(s, fp + 1) as int == s.len() {
                                Some((y, m, d, h, min, sec))
                            } else {
                                None
                            }
                        }
                    }
                }
            }
        }
    }
}

/// What parsing a timestamp string yields: its fields when the shape and
/// the calendar ranges are right, and nothing otherwise.
pub open spec fn spec_parse_ts(s: Seq<char>) -> Option<Timestamp> {
    match spec_parse_fields(s) {
        None => None,
        Some((y, m, d, h, min, sec)) => {
            if 1 <= m <= 12 && 1 <= d <= spec_days_in_month(y, m) && h < 24 && min < 60 && sec
                < 60 {
                let t = Timestamp {
                    year: y as u16,
                    month: m as u8,
                    day: d as u8,
                    hour: h as u8,
                    minute: min as u8,
                    second: sec as u8,
                };
                Some(t)
            } else {
                None
            }
        },
    }
}

/// Position just past the digit run starting at `i`, capped at two
/// digits' worth of look; returns the full run end.
fn digits_end(v: &Vec<char>, i: usize) -> (r: usize)
    requires
        i <= v@.len(),
    ensures
        r == i + digits_len(v@, i as int),
        i <= r <= v@.len(),
{
    let mut k = i;
    while k < v.len() && '0' <= v[k] && v[k] <= '9'
        invariant
            i <= k <= v@.len(),
            digits_len(v@, i as int) == (k - i) + digits_len(v@, k as int),
        decreases v@.len() - k,
    {
        proof {
            assert(digits_len(v@, k as int) == 1 + digits_len(v@, k + 1));
        }
        k = k + 1;
    }
    proof {
        assert(digits_len(v@, k as int) == 0);
    }
    k
}

/// Reads the digit run `v[i..e]` as a number of at most four digits.
fn small_digits(v: &Vec<char>, i: usize, e: usize) -> (r: u32)
    requires
        i <= e <= v@.len(),
        e - i <= 4,
        forall|j: int| i <= j < e ==> is_digit(v@[j]),
    ensures
        r == digits_value(v@, i as int, e as int),
        r <= 9999,
{
    let mut acc: u32 = 0;
    let mut k = i;
    while k < e
        invariant
            i <= k <= e <= v@.len(),
            e - i <= 4,
            forall|j: int| i <= j < e ==> is_digit(v@[j]),
            acc == digits_value(v@, i as int, k as int),
            acc < 10000,
            digits_value(v@, i as int, k as int) < (if k - i == 0 {
                10int
            } else if k - i == 1 {
                10int
            } else if k - i == 2 {
                100int
            } else if k - i == 3 {
                1000int
            } else {
                10000int
            }),
        decreases e - k,
    {
        let c = v[k];
        let d: u32 = (c as u32) - ('0' as u32);
        proof {
            assert(is_digit(v@[k as int]));
            assert(d == digit_val(v@[k as int]));
            assert(digits_value(v@, i as int, k + 1) == digits_value(v@, i as int, k as int) * 10
                + digit_val(v@[k as int]));
        }
        acc = acc * 10 + d;
        k = k + 1;
    }
    acc
}

/// Every character of a digit run is a digit.
proof fn lemma_digit_run(s: Seq<char>, i: int)
    requires
        0 <= i <= s.len(),
    ensures
        i + digits_len(s, i) <= s.len(),
        forall|j: int| i <= j < i + digits_len(s, i) ==> is_digit(s[j]),
    decreases s.len() - i,
{
    if i < s.len() && is_digit(s[i]) {
        lemma_digit_run(s, i + 1);
    }
}

/// Parses ISO-8601 text (`YYYY-MM-DD HH:MM:SS` or with `T`, one- or
/// two-digit time and day fields allowed, fractional seconds ignored)
/// into a timestamp. Returns exactly the timestamps the format and the
/// calendar admit: `None` on any other input.
pub fn parse_timestamp(s: &str) -> (r: Option<Timestamp>)
    ensures
        r == spec_parse_ts(s@),
        r matches Some(t) ==> ts_valid(t),
{
    let v = str_to_chars(s);
    let ye = digits_end(&v, 0);
    if !(v.len() >= 5 && ye == 4 && v[4] == '-') {
        return None;
    }
    proof {
        lemma_digit_run(v@, 0);
    }
    let y = small_digits(&v, 0, 4);
    let me = digits_end(&v, 5);
    let ml = me - 5;
    if !(1 <= ml && ml <= 2 && v.len() > me && v[me] == '-') {
        return None;
    }
    proof {
        lemma_digit_run(v@, 5);
    }
    let m = small_digits(&v, 5, me);
    let dp = me + 1;
    let de = digits_end(&v, dp);
    let dl = de - dp;
    if !(1 <= dl && dl <= 2 && v.len() > de && (v[de] == 'T' || v[de] == ' ')) {
        return None;
    }
    proof {
        lemma_digit_run(v@, dp as int);
    }
    let d = small_digits(&v, dp, de);
    let hp = de + 1;
    let he = digits_end(&v, hp);
    let hl = he - hp;
    if !(1 <= hl && hl <= 2 && v.len() > he && v[he] == ':') {
        return None;
    }
    proof {
        lemma_digit_run(v@, hp as int);
    }
    let h = small_digits(&v, hp, he);
    let minp = he + 1;
    let mine = digits_end(&v, minp);
    let minl = mine - minp;
    if !(1 <= minl && minl <= 2 && v.len() > mine && v[mine] == ':') {
        return None;
    }
    proof {
        lemma_digit_run(v@, minp as int);
    }
    let min = small_digits(&v, minp, mine);
    let sp = mine + 1;
    let se = digits_end(&v, sp);
    let sl = se - sp;
    if !(1 <= sl && sl <= 2) {
        return None;
    }
    proof {
        lemma_digit_run(v@, sp as int);
    }
    let sec = small_digits(&v, sp, se);
    if se == v.len() {
    } else if v[se] == '.' {
        let fe = digits_end(&v, se + 1);
        if !(fe > se + 1 && fe == v.len()) {
            return None;
        }
    } else {
        return None;
    }
    if !(1 <= m && m <= 12) {
        return None;
    }
    let dim: u32 = if m == 2 {
        if (y % 4 == 0 && (y % 100 != 0 || y % 400 == 0)) {
            29
        } else {
            28
        }
    } else if m == 4 || m == 6 || m == 9 || m == 11 {
        30
    } else {
        31
    };
    if !(1 <= d && d <= dim && h < 24 && min < 60 && sec < 60) {
        return None;
    }
    Some(
        Timestamp {
            year: y as u16,
            month: m as u8,
            day: d as u8,
            hour: h as u8,
            minute: min as u8,
            second: sec as u8,
        },
    )
}

/// The two-character zero-padded rendering of `n`.
pub open spec fn two_digits(n: int) -> Seq<char> {
    seq![digit_char(n / 10), digit_char(n % 10)]
}

/// The four-character zero-padded rendering of `n`.
pub open spec fn four_digits(n: int) -> Seq<char> {
    seq![
        digit_char(n / 1000),
        digit_char((n / 100) % 10),
        digit_char((n / 10) % 10),
        digit_char(n % 10),
    ]
}

/// The digit character for `0 <= d <= 9`.
pub open spec fn digit_char(d: int) -> char {
    if d == 0 {
        '0'
    } else if d == 1 {
        '1'
    } else if d == 2 {
        '2'
    } else if d == 3 {
        '3'
    } else if d == 4 {
        '4'
    } else if d == 5 {
        '5'
    } else if d == 6 {
        '6'
    } else if d == 7 {
        '7'
    } else if d == 8 {
        '8'
    } else {
        '9'
    }
}

/// The ISO-8601 rendering of a timestamp, with a space separator:
/// `YYYY-MM-DD HH:MM:SS`.
pub open spec fn spec_ts_iso(t: Timestamp) -> Seq<char> {
    four_digits(t.year as int) + seq!['-'] + two_digits(t.month as int) + seq!['-'] + two_digits(
        t.day as int,
    ) + seq![' '] + two_digits(t.hour as int) + seq![':'] + two_digits(t.minute as int) + seq![':']
        + two_digits(t.second as int)
}

/// Pushes the two-digit zero-padded rendering of `n`.
fn push_two_digits(s: &mut String, n: u32)
    requires
        n < 100,
    ensures
        final(s)@ == old(s)@ + two_digits(n as int),
{
    let hi: u32 = n / 10;
    let lo: u32 = n % 10;
    push_char(s, digit_of(hi));
    push_char(s, digit_of(lo));
}

/// The digit character for `d <= 9`.
pub fn digit_of(d: u32) -> (r: char)
    requires
        d <= 9,
    ensures
        r == digit_char(d as int),
{
    if d == 0 {
        '0'
    } else if d == 1 {
        '1'
    } else if d == 2 {
        '2'
    } else if d == 3 {
        '3'
    } else if d == 4 {
        '4'
    } else if d == 5 {
        '5'
    } else if d == 6 {
        '6'
    } else if d == 7 {
        '7'
    } else if d == 8 {
        '8'
    } else {
        '9'
    }
}

/// Renders a timestamp as ISO-8601 text with a space separator, the form
/// the database stores and `parse_timestamp` reads back.
pub fn ts_to_iso(t: &Timestamp) -> (r: String)
    requires
        ts_valid(*t),
    ensures
        r@ == spec_ts_iso(*t),
{
    let mut s = String::new();
    let y: u32 = t.year as u32;
    push_char(&mut s, digit_of(y / 1000));
    push_char(&mut s, digit_of((y / 100) % 10));
    push_char(&mut s, digit_of((y / 10) % 10));
    push_char(&mut s, digit_of(y % 10));
    push_char(&mut s, '-');
    push_two_digits(&mut s, t.month as u32);
    push_char(&mut s, '-');
    push_two_digits(&mut s, t.day as u32);
    push_char(&mut s, ' ');
    push_two_digits(&mut s, t.hour as u32);
    push_char(&mut s, ':');
    push_two_digits(&mut s, t.minute as u32);
    push_char(&mut s, ':');
    push_two_digits(&mut s, t.second as u32);
    proof {
        assert(s@ =~= spec_ts_iso(*t));
    }
    s
}

/// The month's three-letter English abbreviation.
pub open spec fn month_abbr(m: int) -> Seq<char> {
    if m == 1 {
        seq!['J', 'a', 'n']
    } else if m == 2 {
        seq!['F', 'e', 'b']
    } else if m == 3 {
        seq!['M', 'a', 'r']
    } else if m == 4 {
        seq!['A', 'p', 'r']
    } else if m == 5 {
        seq!['M', 'a', 'y']
    } else if m == 6 {
        seq!['J', 'u', 'n']
    } else if m == 7 {
        seq!['J', 'u', 'l']
    } else if m == 8 {
        seq!['A', 'u', 'g']
    } else if m == 9 {
        seq!['S', 'e', 'p']
    } else if m == 10 {
        seq!['O', 'c', 't']
    } else if m == 11 {
        seq!['N', 'o', 'v']
    } else {
        seq!['D', 'e', 'c']
    }
}

/// The display rendering used on pages: abbreviated month, space-padded
/// day, and four-digit year, as in `Jul  7, 2024`.
pub open spec fn spec_ts_display(t: Timestamp) -> Seq<char> {
    let day: Seq<char> = if t.day < 10 {
        seq![' ', digit_char(t.day as int)]
    } else {
        two_digits(t.day as int)
    };
    month_abbr(t.month as int) + seq![' '] + day + seq![',', ' '] + four_digits(t.year as int)
}

/// Renders a timestamp in the display form used on pages.
pub fn ts_to_display(t: &Timestamp) -> (r: String)
    requires
        ts_valid(*t),
    ensures
        r@ == spec_ts_display(*t),
{
    let mut s = String::new();
    let m = t.month;
    if m == 1 {
        s.append("Jan");
        proof {
            reveal_strlit("Jan");
        }
    } else if m == 2 {
        s.append("Feb");
        proof {
            reveal_strlit("Feb");
        }
    } else if m == 3 {
        s.append("Mar");
        proof {
            reveal_strlit("Mar");
        }
    } else if m == 4 {
        s.append("Apr");
        proof {
            reveal_strlit("Apr");
        }
    } else if m == 5 {
        s.append("May");
        proof {
            reveal_strlit("May");
        }
    } else if m == 6 {
        s.append("Jun");
        proof {
            reveal_strlit("Jun");
        }
    } else if m == 7 {
        s.append("Jul");
        proof {
            reveal_strlit("Jul");
        }
    } else if m == 8 {
        s.append("Aug");
        proof {
            reveal_strlit("Aug");
        }
    } else if m == 9 {
        s.append("Sep");
        proof {
            reveal_strlit("Sep");
        }
    } else if m == 10 {
        s.append("Oct");
        proof {
            reveal_strlit("Oct");
        }
    } else if m == 11 {
        s.append("Nov");
        proof {
            reveal_strlit("Nov");
        }
    } else {
        s.append("Dec");
        proof {
            reveal_strlit("Dec");
        }
    }
    proof {
        assert(s@ =~= month_abbr(t.month as int));
    }
    push_char(&mut s, ' ');
    if t.day < 10 {
        push_char(&mut s, ' ');
        push_char(&mut s, digit_of(t.day as u32));
    } else {
        push_two_digits(&mut s, t.day as u32);
    }
    push_char(&mut s, ',');
    push_char(&mut s, ' ');
    let y: u32 = t.year as u32;
    push_char(&mut s, digit_of(y / 1000));
    push_char(&mut s, digit_of((y / 100) % 10));
    push_char(&mut s, digit_of((y / 10) % 10));
    push_char(&mut s, digit_of(y % 10));
    proof {
        assert(s@ =~= spec_ts_display(*t));
    }
    s
}

/// Reading back the ISO rendering of a valid timestamp yields the same
/// timestamp: the database round trip loses nothing.
pub proof fn lemma_ts_iso_round_trip(t: Timestamp)
    requires
        ts_valid(t),
    ensures
        spec_parse_ts(spec_ts_iso(t)) == Some(t),
{
    let s = spec_ts_iso(t);
    assert(s.len() == 19);
    lemma_digits_value_4(s, t.year as int);
    lemma_digits_value_2(s, 5, t.month as int);
    lemma_digits_value_2(s, 8, t.day as int);
    lemma_digits_value_2(s, 11, t.hour as int);
    lemma_digits_value_2(s, 14, t.minute as int);
    lemma_digits_value_2(s, 17, t.second as int);
}

/// In the ISO rendering, the four year digits read back as the year.
proof fn lemma_digits_value_4(s: Seq<char>, y: int)
    requires
        0 <= y <= 9999,
        s.len() >= 5,
        s[0] == digit_char(y / 1000),
        s[1] == digit_char((y / 100) % 10),
        s[2] == digit_char((y / 10) % 10),
        s[3] == digit_char(y % 10),
        !is_digit(s[4]),
    ensures
        digits_len(s, 0) == 4,
        digits_value(s, 0, 4) == y,
{
    assert(is_digit(digit_char(y / 1000)) && digit_val(digit_char(y / 1000)) == y / 1000);
    assert(is_digit(digit_char((y / 100) % 10)) && digit_val(digit_char((y / 100) % 10)) == (y
        / 100) % 10);
    assert(is_digit(digit_char((y / 10) % 10)) && digit_val(digit_char((y / 10) % 10)) == (y / 10)
        % 10);
    assert(is_digit(digit_char(y % 10)) && digit_val(digit_char(y % 10)) == y % 10);
    assert(digits_len(s, 4) == 0);
    assert(digits_len(s, 3) == 1);
    assert(digits_len(s, 2) == 2);
    assert(digits_len(s, 1) == 3);
    assert(digits_len(s, 0) == 4);
    assert(digits_value(s, 0, 0) == 0);
    assert(digits_value(s, 0, 1) == y / 1000);
    assert(digits_value(s, 0, 2) == (y / 1000) * 10 + (y / 100) % 10);
    assert(digits_value(s, 0, 3) == digits_value(s, 0, 2) * 10 + (y / 10) % 10);
    assert(digits_value(s, 0, 4) == digits_value(s, 0, 3) * 10 + y % 10);
    assert(digits_value(s, 0, 4) == y) by (nonlinear_arith)
        requires
            0 <= y <= 9999,
            digits_value(s, 0, 4) == (((y / 1000) * 10 + (y / 100) % 10) * 10 + (y / 10) % 10) * 10
                + y % 10,
    ;
}

/// In the ISO rendering, a zero-padded pair reads back as its value.
proof fn lemma_digits_value_2(s: Seq<char>, i: int, n: int)
    requires
        0 <= n <= 99,
        0 <= i,
        i + 2 <= s.len(),
        s[i] == digit_char(n / 10),
        s[i + 1] == digit_char(n % 10),
        i + 2 == s.len() || !is_digit(s[i + 2]),
    ensures
        digits_len(s, i) == 2,
        digits_value(s, i, i + 2) == n,
{
    assert(is_digit(digit_char(n / 10)) && digit_val(digit_char(n / 10)) == n / 10);
    assert(is_digit(digit_char(n % 10)) && digit_val(digit_char(n % 10)) == n % 10);
    assert(digits_len(s, i + 2) == 0);
    assert(digits_len(s, i + 1) == 1);
    assert(digits_len(s, i) == 2);
    assert(digits_value(s, i, i) == 0);
    assert(digits_value(s, i, i + 1) == n / 10);
    assert(digits_value(s, i, i + 2) == (n / 10) * 10 + n % 10);
}

} // verus!
