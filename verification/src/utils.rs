use vstd::prelude::*;

verus! {

/// Default page size when the client gives none.
pub const DEFAULT_LIMIT: i64 = 10;

/// Largest page size a client may ask for.
pub const MAX_LIMIT: i64 = 100;

/// Query-string parameters of a profile listing.
#[derive(Debug, Default)]
pub struct QueryParams {
    pub search: Option<String>,
    pub gender: Option<String>,
    pub country: Option<String>,
    pub age_group: Option<String>,
    pub page: Option<i64>,
    pub limit: Option<i64>,
}

/// The page asked for, at least 1 (default 1).
pub open spec fn effective_page(page: Option<i64>) -> int {
    match page {
        Some(p) => if p < 1 { 1 } else { p as int },
        None => 1,
    }
}

/// The page size asked for, clamped to 1..=100 (default 10).
pub open spec fn effective_limit(limit: Option<i64>) -> int {
    match limit {
        Some(l) => if l < 1 { 1 } else if l > MAX_LIMIT { MAX_LIMIT as int } else { l as int },
        None => DEFAULT_LIMIT as int,
    }
}

/// Number of rows skipped before the page asked for.
pub open spec fn effective_offset(page: Option<i64>, limit: Option<i64>) -> int {
    (effective_page(page) - 1) * effective_limit(limit)
}

/// Whether the offset of the page asked for fits in an `i64`.
pub open spec fn offset_fits(page: Option<i64>, limit: Option<i64>) -> bool {
    effective_offset(page, limit) <= i64::MAX
}

/// `page.unwrap_or(1).max(1)`, computed without a closure.
pub fn clamp_page(page: Option<i64>) -> (res: i64)
    ensures
        res == effective_page(page),
        res >= 1,
{
    match page {
        Some(p) => if p < 1 { 1 } else { p },
        None => 1,
    }
}

/// `limit.unwrap_or(10).clamp(1, 100)`.
pub fn clamp_limit(limit: Option<i64>) -> (res: i64)
    ensures
        res == effective_limit(limit),
        1 <= res <= MAX_LIMIT,
{
    match limit {
        Some(l) => if l < 1 { 1 } else if l > MAX_LIMIT { MAX_LIMIT } else { l },
        None => DEFAULT_LIMIT,
    }
}

/// The offset `(page - 1) * limit` of a clamped page and page size.
pub fn page_offset(page: i64, limit: i64) -> (res: i64)
    requires
        page >= 1,
        1 <= limit <= MAX_LIMIT,
        (page - 1) * limit <= i64::MAX,
    ensures
        res == (page - 1) * limit,
        res >= 0,
{
    assert((page - 1) * limit >= 0) by (nonlinear_arith)
        requires page >= 1, limit >= 1;
    (page - 1) * limit
}

/// Whether the offset of the page asked for fits in an `i64`, as the
/// listing requires.
pub fn effective_offset_fits(page: Option<i64>, limit: Option<i64>) -> (res: bool)
    ensures
        res == offset_fits(page, limit),
{
    let p = clamp_page(page);
    let l = clamp_limit(limit);
    let room = i64::MAX / l;
    proof {
        let a = (p - 1) as int;
        let b = l as int;
        let m = i64::MAX as int;
        vstd::arithmetic::div_mod::lemma_fundamental_div_mod(m, b);
        assert(0 <= m % b < b);
        assert(m / b * b <= m && m < (m / b + 1) * b) by (nonlinear_arith)
            requires m == b * (m / b) + m % b, 0 <= m % b < b;
        assert(a * b <= m <==> a <= m / b) by (nonlinear_arith)
            requires b >= 1, a >= 0, m / b * b <= m, m < (m / b + 1) * b;
    }
    p - 1 <= room
}

impl QueryParams {
    /// The page asked for, never below 1.
    pub fn page(&self) -> (res: i64)
        ensures
            res == effective_page(self.page),
            res >= 1,
    {
        clamp_page(self.page)
    }

    /// The page size asked for, clamped to 1..=100: 1000 becomes 100 and
    /// -5 becomes 1.
    pub fn limit(&self) -> (res: i64)
        ensures
            res == effective_limit(self.limit),
            1 <= res <= MAX_LIMIT,
    {
        clamp_limit(self.limit)
    }

    /// The number of rows before the page asked for.
    pub fn offset(&self) -> (res: i64)
        requires
            offset_fits(self.page, self.limit),
        ensures
            res == effective_offset(self.page, self.limit),
            res >= 0,
    {
        let page = self.page();
        let limit = self.limit();
        page_offset(page, limit)
    }
}

// ---------------------------------------------------------------------------
// Identifiers and timestamps
// ---------------------------------------------------------------------------

pub open spec fn is_lower_hex(c: char) -> bool {
    ('0' <= c <= '9') || ('a' <= c <= 'f')
}

/// `s` is a version-7 UUID written as `uuid` writes one: 36 characters,
/// hyphens at positions 8, 13, 18 and 23, lower-case hex digits elsewhere,
/// the version digit `7` at position 14 and a variant digit of `8`, `9`,
/// `a` or `b` at position 19.
pub open spec fn is_v7_uuid_text(s: Seq<char>) -> bool {
    &&& s.len() == 36
    &&& forall|i: int|
        0 <= i < 36 ==> if i == 8 || i == 13 || i == 18 || i == 23 {
            #[trigger] s[i] == '-'
        } else {
            is_lower_hex(s[i])
        }
    &&& s[14] == '7'
    &&& (s[19] == '8' || s[19] == '9' || s[19] == 'a' || s[19] == 'b')
}

/// `s` ends with `suffix`.
pub open spec fn ends_with(s: Seq<char>, suffix: Seq<char>) -> bool {
    suffix.len() <= s.len() && s.subrange(s.len() - suffix.len(), s.len() as int) == suffix
}

/// Calls `uuid::Uuid::now_v7` and writes the UUID with `to_string`. The
/// UUID depends on the clock and on random bits, so only its shape is
/// stated: the hyphenated lower-case form of a version-7, RFC 4122 variant
/// UUID (`uuid`'s `format_hyphenated` and `encode_unix_timestamp_millis`).
#[verifier::external_body]
fn uuid_v7_text() -> (res: String)
    ensures
        is_v7_uuid_text(res@),
{
    uuid::Uuid::now_v7().to_string()
}

pub open spec fn is_ascii_digit(c: char) -> bool {
    '0' <= c <= '9'
}

/// Every character of `s` from `from` (inclusive) to `to` (exclusive) is
/// a decimal digit.
pub open spec fn digits_between(s: Seq<char>, from: int, to: int) -> bool {
    forall|i: int| from <= i < to ==> is_ascii_digit(#[trigger] s[i])
}

/// The year of an RFC 3339 stamp as `chrono` writes it: four digits for
/// the years 0 to 9999, else a sign and at least four digits.
pub open spec fn is_rfc3339_year(y: Seq<char>) -> bool {
    ||| y.len() == 4 && digits_between(y, 0, 4)
    ||| y.len() >= 5 && (y[0] == '+' || y[0] == '-') && digits_between(y, 1, y.len() as int)
}

/// `s` is a UTC time written by `chrono`'s `to_rfc3339` whose fraction of a
/// second takes `frac` characters (0, or a `.` and 3, 6 or 9 digits): the
/// year, `-MM-DD`, `T`, `HH:MM:SS`, the fraction and `+00:00`.
pub open spec fn is_utc_rfc3339_with(s: Seq<char>, frac: int) -> bool {
    let m = s.len() - 21 - frac;
    &&& m >= 4
    &&& is_rfc3339_year(s.subrange(0, m))
    &&& s[m] == '-'
    &&& digits_between(s, m + 1, m + 3)
    &&& s[m + 3] == '-'
    &&& digits_between(s, m + 4, m + 6)
    &&& s[m + 6] == 'T'
    &&& digits_between(s, m + 7, m + 9)
    &&& s[m + 9] == ':'
    &&& digits_between(s, m + 10, m + 12)
    &&& s[m + 12] == ':'
    &&& digits_between(s, m + 13, m + 15)
    &&& (frac > 0 ==> s[m + 15] == '.' && digits_between(s, m + 16, m + 15 + frac))
    &&& s.subrange(s.len() - 6, s.len() as int) == "+00:00"@
}

/// `s` is an RFC 3339 date and time in UTC as `chrono` writes it with
/// `to_rfc3339`: year, `-MM-DD`, `T`, `HH:MM:SS`, an optional fraction of a
/// second of 3, 6 or 9 digits, and the offset `+00:00`.
pub open spec fn is_utc_rfc3339(s: Seq<char>) -> bool {
    ||| is_utc_rfc3339_with(s, 0)
    ||| is_utc_rfc3339_with(s, 4)
    ||| is_utc_rfc3339_with(s, 7)
    ||| is_utc_rfc3339_with(s, 10)
}

/// Calls `chrono::Utc::now` and writes the time with `to_rfc3339`. The time
/// depends on the clock, so only what holds of every outcome is stated: the
/// form that `chrono`'s `write_rfc3339` gives a UTC time with seconds format
/// `AutoSi` and `use_z` false (two-digit month, day, hour, minute and second,
/// a fraction only when the nanoseconds are not zero, the offset `+00:00`).
/// Which instant it is, is left unsaid.
#[verifier::external_body]
fn utc_now_rfc3339() -> (res: String)
    ensures
        is_utc_rfc3339(res@),
{
    chrono::Utc::now().to_rfc3339()
}

/// A fresh identifier for a profile: a version-7 UUID, which sorts by
/// creation time.
pub fn new_profile_id() -> (res: String)
    ensures
        is_v7_uuid_text(res@),
{
    uuid_v7_text()
}

/// The current time as an RFC 3339 string in UTC, for the `created_at`
/// column, such as `2024-01-02T03:04:05.123456789+00:00`.
pub fn now() -> (res: String)
    ensures
        is_utc_rfc3339(res@),
        ends_with(res@, "+00:00"@),
{
    let t = utc_now_rfc3339();
    assert(ends_with(t@, "+00:00"@));
    t
}

} // verus!
