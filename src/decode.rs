use vstd::prelude::*;
use vstd::string::StrSliceExecFns;
use crate::passive::decimal;
use crate::reply::{is_digit, text_bytes};
use crate::types::{ErrorKind, FtpError};

verus! {

// ---- listings ----

/// A segment that is kept as an entry: only a non-empty one.
pub open spec fn keep(cur: Seq<u8>) -> Seq<Seq<u8>> {
    if cur.len() > 0 {
        seq![cur]
    } else {
        Seq::empty()
    }
}

/// The non-empty CRLF-separated segments of `s`, the first of them
/// prefixed by `cur`.
pub open spec fn entries_from(s: Seq<u8>, cur: Seq<u8>) -> Seq<Seq<u8>>
    decreases s.len(),
{
    if s.len() == 0 {
        keep(cur)
    } else if s.len() >= 2 && s[0] == 13 && s[1] == 10 {
        keep(cur) + entries_from(s.skip(2), Seq::empty())
    } else {
        entries_from(s.skip(1), cur.push(s[0]))
    }
}

/// The entries of a listing payload: its CRLF-separated segments, in
/// order, without the empty ones.
pub open spec fn listing_entries(s: Seq<u8>) -> Seq<Seq<u8>> {
    entries_from(s, Seq::empty())
}

pub open spec fn views_of(v: Seq<Vec<u8>>) -> Seq<Seq<u8>> {
    v.map_values(|e: Vec<u8>| e@)
}

/// Splits a drained listing payload into its entries.
pub fn decode_listing(payload: &[u8]) -> (r: Vec<Vec<u8>>)
    ensures
        views_of(r@) == listing_entries(payload@),
{
    let ghost s = payload@;
    let mut out: Vec<Vec<u8>> = Vec::new();
    let mut cur: Vec<u8> = Vec::new();
    let mut i: usize = 0;
    proof {
        assert(s.skip(0) =~= s);
        assert(views_of(out@) + entries_from(s.skip(0), cur@) =~= listing_entries(s));
    }
    while i < payload.len()
        invariant
            s == payload@,
            i <= s.len(),
            listing_entries(s) == views_of(out@) + entries_from(s.skip(i as int), cur@),
        decreases s.len() - i,
    {
        let ghost rest = s.skip(i as int);
        if i + 1 < payload.len() && payload[i] == 13 && payload[i + 1] == 10 {
            let ghost c = cur@;
            let ghost a = views_of(out@);
            proof {
                assert(rest.skip(2) =~= s.skip(i + 2));
                assert(rest[0] == 13 && rest[1] == 10);
                assert(entries_from(rest, c) == keep(c) + entries_from(s.skip(i + 2), Seq::empty()));
            }
            if cur.len() > 0 {
                let ghost old_out = views_of(out@);
                out.push(cur);
                proof {
                    assert(views_of(out@) =~= old_out.push(keep(cur@)[0]));
                }
                cur = Vec::new();
            }
            proof {
                assert(cur@ =~= Seq::<u8>::empty());
                assert(views_of(out@) =~= a + keep(c));
                assert(a + (keep(c) + entries_from(s.skip(i + 2), cur@)) =~= (a + keep(c))
                    + entries_from(s.skip(i + 2), cur@));
            }
            i = i + 2;
        } else {
            proof {
                assert(rest.skip(1) =~= s.skip(i + 1));
                assert(rest[0] == s[i as int]);
            }
            cur.push(payload[i]);
            i = i + 1;
        }
    }
    if cur.len() > 0 {
        out.push(cur);
    }
    proof {
        assert(views_of(out@) =~= listing_entries(s));
    }
    out
}

// ---- sizes ----

/// ASCII whitespace: space, tab, line feed, vertical tab, form feed, carriage return.
pub open spec fn is_space(b: u8) -> bool {
    b == 32 || 9 <= b <= 13
}

/// The length of `s[..n]` once its trailing whitespace is dropped.
pub open spec fn trimmed(s: Seq<u8>, n: int) -> int
    decreases n,
{
    if n > 0 && is_space(s[n - 1]) {
        trimmed(s, n - 1)
    } else {
        n
    }
}

/// The number of digits that `s[..n]` ends with.
pub open spec fn digits_before(s: Seq<u8>, n: int) -> int
    decreases n,
{
    if n > 0 && is_digit(s[n - 1]) {
        1 + digits_before(s, n - 1)
    } else {
        0
    }
}

/// The number a text ends with: a run of digits with whitespace before it
/// and nothing but whitespace after it.
pub open spec fn trailing_number(s: Seq<u8>) -> Option<nat> {
    let e = trimmed(s, s.len() as int);
    let d = digits_before(s, e);
    if d > 0 && e - d > 0 && is_space(s[e - d - 1]) {
        Some(decimal(s, e - d, e))
    } else {
        None
    }
}

/// Appending digits never makes a number smaller.
pub proof fn lemma_decimal_grows(s: Seq<u8>, p: int, q: int, e: int)
    requires
        p <= q <= e,
    ensures
        decimal(s, p, q) <= decimal(s, p, e),
    decreases e - q,
{
    if q < e {
        lemma_decimal_grows(s, p, q, e - 1);
    }
}

/// The size a reply with code `code` and text `s` reports.
pub open spec fn size_outcome(code: u32, s: Seq<u8>) -> Result<Option<usize>, ErrorKind> {
    if code == crate::status::FILE_UNAVAILABLE {
        Ok(None)
    } else {
        match trailing_number(s) {
            None => Ok(None),
            Some(v) => if v <= usize::MAX {
                Ok(Some(v as usize))
            } else {
                Err(ErrorKind::InvalidResponse)
            },
        }
    }
}

/// The size a reply reports. A reply for an unavailable file reports none;
/// otherwise the size is the number its text ends with, if any. A number
/// too large for `usize` is an invalid response.
pub fn parse_size(code: u32, text: &str) -> (r: Result<Option<usize>, FtpError>)
    ensures
        match size_outcome(code, text_bytes(text@)) {
            Ok(v) => r == Ok::<Option<usize>, FtpError>(v),
            Err(k) => r is Err && r->Err_0.kind() == k,
        },
{
    if code == crate::status::FILE_UNAVAILABLE {
        return Ok(None);
    }
    let b = text.as_bytes();
    let ghost s = b@;
    let mut e = b.len();
    while e > 0 && (b[e - 1] == 32 || (9 <= b[e - 1] && b[e - 1] <= 13))
        invariant
            s == b@,
            e <= s.len(),
            trimmed(s, s.len() as int) == trimmed(s, e as int),
        decreases e,
    {
        e = e - 1;
    }
    let mut q = e;
    while q > 0 && 48 <= b[q - 1] && b[q - 1] <= 57
        invariant
            s == b@,
            q <= e <= s.len(),
            digits_before(s, e as int) == (e - q) + digits_before(s, q as int),
            forall|k: int| q <= k < e ==> is_digit(#[trigger] s[k]),
        decreases q,
    {
        q = q - 1;
    }
    if q == e || q == 0 || !(b[q - 1] == 32 || (9 <= b[q - 1] && b[q - 1] <= 13)) {
        return Ok(None);
    }
    assert(s == text_bytes(text@));
    assert(trailing_number(s) == Some(decimal(s, q as int, e as int)));
    let mut v: usize = 0;
    let mut j = q;
    while j < e
        invariant
            code != crate::status::FILE_UNAVAILABLE,
            s == b@,
            s == text_bytes(text@),
            trailing_number(s) == Some(decimal(s, q as int, e as int)),
            forall|k: int| q <= k < e ==> is_digit(#[trigger] s[k]),
            q <= j <= e <= s.len(),
            v == decimal(s, q as int, j as int),
        decreases e - j,
    {
        let d = (b[j] - 48) as usize;
        match v.checked_mul(10) {
            Some(t) => match t.checked_add(d) {
                Some(n) => {
                    v = n;
                },
                None => {
                    proof {
                        lemma_decimal_grows(s, q as int, j + 1, e as int);
                    }
                    return Err(FtpError::InvalidResponse(text.to_owned()));
                },
            },
            None => {
                proof {
                    lemma_decimal_grows(s, q as int, j + 1, e as int);
                }
                return Err(FtpError::InvalidResponse(text.to_owned()));
            },
        }
        j = j + 1;
    }
    Ok(Some(v))
}

// ---- modification times ----

/// A calendar moment in UTC.
#[derive(Debug, Clone, Copy, PartialEq, Eq, Structural)]
pub struct Timestamp {
    pub year: i32,
    pub month: u32,
    pub day: u32,
    pub hour: u32,
    pub minute: u32,
    pub second: u32,
}

/// An ASCII letter, digit or underscore.
pub open spec fn is_word(b: u8) -> bool {
    is_digit(b) || 65 <= b <= 90 || 97 <= b <= 122 || b == 95
}

/// Fourteen digits start at `i`, with no letter, digit or underscore right
/// before or after them.
pub open spec fn stamp_at(s: Seq<u8>, i: int) -> bool {
    &&& 0 <= i
    &&& i + 14 <= s.len()
    &&& forall|k: int| i <= k < i + 14 ==> is_digit(#[trigger] s[k])
    &&& (i == 0 || !is_word(s[i - 1]))
    &&& (i + 14 == s.len() || !is_word(s[i + 14]))
}

pub open spec fn first_stamp(s: Seq<u8>, i: int) -> bool {
    &&& stamp_at(s, i)
    &&& forall|j: int| 0 <= j < i ==> !#[trigger] stamp_at(s, j)
}

/// The fields of the stamp at `i`: YYYYMMDDhhmmss.
pub open spec fn stamp_fields(s: Seq<u8>, i: int) -> Timestamp {
    Timestamp {
        year: decimal(s, i, i + 4) as i32,
        month: decimal(s, i + 4, i + 6) as u32,
        day: decimal(s, i + 6, i + 8) as u32,
        hour: decimal(s, i + 8, i + 10) as u32,
        minute: decimal(s, i + 10, i + 12) as u32,
        second: decimal(s, i + 12, i + 14) as u32,
    }
}

pub open spec fn is_leap_year(y: int) -> bool {
    (y % 4 == 0 && y % 100 != 0) || y % 400 == 0
}

pub open spec fn days_in_month(y: int, m: int) -> int {
    if m == 2 {
        if is_leap_year(y) { 29 } else { 28 }
    } else if m == 4 || m == 6 || m == 9 || m == 11 {
        30
    } else {
        31
    }
}

/// The day exists in the proleptic Gregorian calendar.
pub open spec fn valid_date(y: int, m: int, d: int) -> bool {
    1 <= m <= 12 && 1 <= d <= days_in_month(y, m)
}

pub open spec fn valid_time(h: int, mi: int, se: int) -> bool {
    0 <= h < 24 && 0 <= mi < 60 && 0 <= se < 60
}

pub open spec fn valid_moment(t: Timestamp) -> bool {
    valid_date(t.year as int, t.month as int, t.day as int) && valid_time(
        t.hour as int,
        t.minute as int,
        t.second as int,
    )
}

/// The moment a modification-time reply text carries: the leftmost stamp,
/// when it names an existing day and time.
pub open spec fn timestamp_outcome(s: Seq<u8>) -> Option<Timestamp> {
    if exists|i: int| first_stamp(s, i) {
        let t = stamp_fields(s, choose|i: int| first_stamp(s, i));
        if valid_moment(t) {
            Some(t)
        } else {
            None
        }
    } else {
        None
    }
}

/// Relies on chrono's `NaiveDate::from_ymd_opt`: it gives a date exactly
/// when the day exists in the proleptic Gregorian calendar and the year is
/// in chrono's range, which holds every four-digit year.
#[verifier::external_body]
fn date_exists(year: i32, month: u32, day: u32) -> (r: bool)
    requires
        0 <= year <= 9999,
    ensures
        r == valid_date(year as int, month as int, day as int),
{
    chrono::NaiveDate::from_ymd_opt(year, month, day).is_some()
}

/// Relies on chrono's `NaiveTime::from_hms_opt`: it gives a time exactly
/// when the hour is under 24, the minute under 60 and the second under 60.
#[verifier::external_body]
fn time_exists(hour: u32, minute: u32, second: u32) -> (r: bool)
    ensures
        r == valid_time(hour as int, minute as int, second as int),
{
    chrono::NaiveTime::from_hms_opt(hour, minute, second).is_some()
}

/// The value of the `n` digits at `p`, for up to four digits.
fn small_decimal(b: &[u8], p: usize, n: usize) -> (r: u32)
    requires
        n <= 4,
        p + n <= b@.len(),
        forall|k: int| p <= k < p + n ==> is_digit(#[trigger] b@[k]),
    ensures
        r == decimal(b@, p as int, p + n),
        r < 10000,
{
    let len = b.len();
    let end = p + n;
    let mut v: u32 = 0;
    let mut j: usize = p;
    while j < end
        invariant
            end == p + n,
            p <= j <= p + n,
            p + n <= b@.len(),
            n <= 4,
            forall|k: int| p <= k < p + n ==> is_digit(#[trigger] b@[k]),
            v == decimal(b@, p as int, j as int),
            (j - p == 0 && v == 0) || (j - p == 1 && v < 10) || (j - p == 2 && v < 100) || (j - p
                == 3 && v < 1000) || (j - p == 4 && v < 10000),
        decreases end - j,
    {
        assert(is_digit(b@[j as int]));
        v = v * 10 + (b[j] - 48) as u32;
        j = j + 1;
    }
    v
}

fn is_word_byte(c: u8) -> (r: bool)
    ensures
        r == is_word(c),
{
    (48 <= c && c <= 57) || (65 <= c && c <= 90) || (97 <= c && c <= 122) || c == 95
}

fn stamp_at_exec(b: &[u8], i: usize) -> (r: bool)
    requires
        i + 14 <= b@.len(),
    ensures
        r == stamp_at(b@, i as int),
{
    let len = b.len();
    let end = i + 14;
    let mut k: usize = i;
    while k < end
        invariant
            end == i + 14,
            i <= k <= i + 14,
            i + 14 <= b@.len(),
            forall|j: int| i <= j < k ==> is_digit(#[trigger] b@[j]),
        decreases i + 14 - k,
    {
        if b[k] < 48 || b[k] > 57 {
            return false;
        }
        k = k + 1;
    }
    (i == 0 || !is_word_byte(b[i - 1])) && (i + 14 == b.len() || !is_word_byte(b[i + 14]))
}

/// Reads the modification time a reply text carries, if it carries one.
pub fn parse_mdtm(text: &str) -> (r: Option<Timestamp>)
    ensures
        r == timestamp_outcome(text_bytes(text@)),
{
    let b = text.as_bytes();
    let ghost s = b@;
    assert(s == text_bytes(text@));
    let mut i: usize = 0;
    while b.len() >= 14 && i <= b.len() - 14
        invariant
            s == b@,
            s == text_bytes(text@),
            forall|j: int| 0 <= j < i ==> !#[trigger] stamp_at(s, j),
        decreases b@.len() - i,
    {
        if stamp_at_exec(b, i) {
            proof {
                assert(first_stamp(s, i as int));
                let c = choose|j: int| first_stamp(s, j);
                if c < i {
                    assert(!stamp_at(s, c));
                } else if c > i {
                    assert(!stamp_at(s, i as int));
                }
            }
            let year = small_decimal(b, i, 4);
            let month = small_decimal(b, i + 4, 2);
            let day = small_decimal(b, i + 6, 2);
            let hour = small_decimal(b, i + 8, 2);
            let minute = small_decimal(b, i + 10, 2);
            let second = small_decimal(b, i + 12, 2);
            let t = Timestamp { year: year as i32, month, day, hour, minute, second };
            assert(t == stamp_fields(s, i as int));
            if date_exists(year as i32, month, day) && time_exists(hour, minute, second) {
                return Some(t);
            } else {
                return None;
            }
        }
        i = i + 1;
    }
    proof {
        assert forall|j: int| !first_stamp(s, j) by {
            if 0 <= j < i {
                assert(!stamp_at(s, j));
            }
        }
    }
    None
}

// ---- working directory ----

/// `b` is the position of the first double quote of `t`.
pub open spec fn first_quote(t: Seq<char>, b: int) -> bool {
    &&& 0 <= b < t.len()
    &&& t[b] == '"'
    &&& forall|j: int| 0 <= j < b ==> t[j] != '"'
}

/// `e` is the position of the last double quote of `t`.
pub open spec fn last_quote(t: Seq<char>, e: int) -> bool {
    &&& 0 <= e < t.len()
    &&& t[e] == '"'
    &&& forall|j: int| e < j < t.len() ==> t[j] != '"'
}

/// `t` holds a quoted text from `b` to `e`: its first and last double quotes.
pub open spec fn quoted_between(t: Seq<char>, b: int, e: int) -> bool {
    first_quote(t, b) && last_quote(t, e) && b < e
}

/// The path a working-directory reply text names: the text between its
/// first and last double quotes, when there are two.
pub open spec fn pwd_outcome(t: Seq<char>) -> Result<Seq<char>, ErrorKind> {
    if exists|b: int, e: int| quoted_between(t, b, e) {
        let (b, e) = choose|b: int, e: int| quoted_between(t, b, e);
        Ok(t.subrange(b + 1, e))
    } else {
        Err(ErrorKind::InvalidResponse)
    }
}

pub proof fn lemma_quotes_unique(t: Seq<char>, b1: int, e1: int, b2: int, e2: int)
    requires
        quoted_between(t, b1, e1),
        quoted_between(t, b2, e2),
    ensures
        b1 == b2,
        e1 == e2,
{
    if b1 < b2 {
        assert(t[b1] != '"');
    }
    if b2 < b1 {
        assert(t[b2] != '"');
    }
    if e1 < e2 {
        assert(t[e2] != '"');
    }
    if e2 < e1 {
        assert(t[e1] != '"');
    }
}

/// Reads the path of a working-directory reply.
pub fn parse_pwd(text: &str) -> (r: Result<String, FtpError>)
    ensures
        match pwd_outcome(text@) {
            Ok(p) => r is Ok && r->Ok_0@ == p,
            Err(k) => r is Err && r->Err_0.kind() == k,
        },
{
    let n = text.unicode_len();
    let mut b: usize = 0;
    while b < n && text.get_char(b) != '"'
        invariant
            n == text@.len(),
            b <= n,
            forall|j: int| 0 <= j < b ==> text@[j] != '"',
        decreases n - b,
    {
        b = b + 1;
    }
    let mut e: usize = n;
    while e > 0 && text.get_char(e - 1) != '"'
        invariant
            n == text@.len(),
            e <= n,
            forall|j: int| e <= j < n ==> text@[j] != '"',
        decreases e,
    {
        e = e - 1;
    }
    if b < n && e > 0 && b < e - 1 {
        let path = text.substring_char(b + 1, e - 1).to_owned();
        proof {
            assert(quoted_between(text@, b as int, e - 1));
            let (x, y) = choose|x: int, y: int| quoted_between(text@, x, y);
            lemma_quotes_unique(text@, b as int, e - 1, x, y);
        }
        Ok(path)
    } else {
        proof {
            assert forall|x: int, y: int| !quoted_between(text@, x, y) by {
                if quoted_between(text@, x, y) {
                    if b < n {
                        assert(x == b) by {
                            if x < b {
                                assert(text@[x] != '"');
                            }
                            if b < x {
                                assert(text@[b as int] == '"');
                            }
                        }
                    } else {
                        assert(text@[x] != '"');
                    }
                    if e > 0 {
                        assert(y == e - 1) by {
                            if y > e - 1 {
                                assert(text@[y] != '"');
                            }
                        }
                    } else {
                        assert(text@[y] != '"');
                    }
                }
            }
        }
        Err(FtpError::InvalidResponse(text.to_owned()))
    }
}

} // verus!
