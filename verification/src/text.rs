//! Character-level helpers: case mapping, substring search and decimal
//! rendering of integers.

use vstd::prelude::*;

verus! {

// ---------------------------------------------------------------------------
// Case mapping (Unicode, from std)
// ---------------------------------------------------------------------------

/// What `str::to_lowercase` returns for a string with these characters.
pub uninterp spec fn lowercase(s: Seq<char>) -> Seq<char>;

/// What `str::to_uppercase` returns for a string with these characters.
pub uninterp spec fn uppercase(s: Seq<char>) -> Seq<char>;

/// Every character of `s` is ASCII.
pub open spec fn all_ascii(s: Seq<char>) -> bool {
    forall|i: int| 0 <= i < s.len() ==> (#[trigger] s[i] as u32) < 128
}

pub open spec fn ascii_lower_char(c: char) -> char {
    if 'A' <= c <= 'Z' {
        ((c as u32) + 32) as char
    } else {
        c
    }
}

pub open spec fn ascii_upper_char(c: char) -> char {
    if 'a' <= c <= 'z' {
        ((c as u32) - 32) as char
    } else {
        c
    }
}

/// `s` with `A`..`Z` mapped to `a`..`z` and every other character kept.
pub open spec fn ascii_lower(s: Seq<char>) -> Seq<char> {
    s.map_values(|c: char| ascii_lower_char(c))
}

/// `s` with `a`..`z` mapped to `A`..`Z` and every other character kept.
pub open spec fn ascii_upper(s: Seq<char>) -> Seq<char> {
    s.map_values(|c: char| ascii_upper_char(c))
}

/// Calls `str::to_lowercase`. Its result is named `lowercase` of the
/// argument's characters (Unicode's lowercase mapping, which takes pages to
/// state); on an all-ASCII argument it maps `A`..`Z` to `a`..`z` and keeps
/// every other character, as std documents.
#[verifier::external_body]
pub(crate) fn to_lowercase(s: &str) -> (res: String)
    ensures
        res@ == lowercase(s@),
        all_ascii(s@) ==> res@ == ascii_lower(s@),
{
    s.to_lowercase()
}

/// Calls `str::to_uppercase`. Its result is named `uppercase` of the
/// argument's characters; on an all-ASCII argument it maps `a`..`z` to
/// `A`..`Z` and keeps every other character.
#[verifier::external_body]
pub(crate) fn to_uppercase(s: &str) -> (res: String)
    ensures
        res@ == uppercase(s@),
        all_ascii(s@) ==> res@ == ascii_upper(s@),
{
    s.to_uppercase()
}

/// What `char::is_numeric` returns for `c` (Unicode's numeric general
/// categories Nd, Nl and No).
pub uninterp spec fn numeric_char(c: char) -> bool;

/// Calls `char::is_numeric`. Its result is named `numeric_char` of the
/// argument (Unicode tables, which take pages to state); for an ASCII
/// character it holds exactly of `0`..`9`, as std's implementation tests
/// those first and every other numeric character lies above `\x7f`.
#[verifier::external_body]
pub(crate) fn is_numeric(c: char) -> (res: bool)
    ensures
        res == numeric_char(c),
        (c as u32) < 128 ==> (res <==> ('0' <= c <= '9')),
{
    c.is_numeric()
}

// ---------------------------------------------------------------------------
// Characters and equality
// ---------------------------------------------------------------------------

/// The characters of `s`, in order.
pub fn chars_of(s: &str) -> (res: Vec<char>)
    ensures
        res@ == s@,
{
    let mut out: Vec<char> = Vec::new();
    for c in it: s.chars()
        invariant
            out@ == it.seq().take(it.index() as int),
            it.seq() == s@,
    {
        out.push(c);
    }
    out
}

/// Whether two strings hold the same characters.
pub fn str_eq(a: &str, b: &str) -> (res: bool)
    ensures
        res == (a@ == b@),
{
    let x = chars_of(a);
    let y = chars_of(b);
    if x.len() != y.len() {
        assert(x@.len() != y@.len());
        return false;
    }
    let n = x.len();
    let mut i: usize = 0;
    while i < n
        invariant
            n == x@.len(),
            n == y@.len(),
            x@ == a@,
            y@ == b@,
            0 <= i <= n,
            forall|j: int| 0 <= j < i ==> x@[j] == y@[j],
        decreases n - i,
    {
        if x[i] != y[i] {
            assert(x@[i as int] != y@[i as int]);
            return false;
        }
        i = i + 1;
    }
    assert(x@ =~= y@);
    true
}

// ---------------------------------------------------------------------------
// Substring search
// ---------------------------------------------------------------------------

/// `w` occurs in `t` starting at position `j`.
pub open spec fn occurs(t: Seq<char>, w: Seq<char>, j: int) -> bool {
    0 <= j && j + w.len() <= t.len() && t.subrange(j, j + w.len()) == w
}

/// The first position at or after `i` where `w` occurs in `t`.
pub open spec fn find_from(t: Seq<char>, w: Seq<char>, i: nat) -> Option<nat>
    decreases t.len() + 1 - i,
{
    if i + w.len() > t.len() {
        None
    } else if occurs(t, w, i as int) {
        Some(i)
    } else {
        find_from(t, w, i + 1)
    }
}

/// The first position where `w` occurs in `t` (what `str::find` gives, in
/// characters).
pub open spec fn first_index(t: Seq<char>, w: Seq<char>) -> Option<nat> {
    find_from(t, w, 0)
}

/// `w` occurs somewhere in `t`.
pub open spec fn has(t: Seq<char>, w: Seq<char>) -> bool {
    first_index(t, w) is Some
}

/// A position where `find_from` stops is an occurrence, and none lies
/// between the start and it.
pub proof fn lemma_find_from(t: Seq<char>, w: Seq<char>, i: nat)
    ensures
        match find_from(t, w, i) {
            Some(k) => i <= k && occurs(t, w, k as int)
                && forall|j: int| i <= j < k ==> !#[trigger] occurs(t, w, j),
            None => forall|j: int| i <= j ==> !#[trigger] occurs(t, w, j),
        },
    decreases t.len() + 1 - i,
{
    if i + w.len() > t.len() {
    } else if occurs(t, w, i as int) {
    } else {
        lemma_find_from(t, w, i + 1);
    }
}

/// Whether `w` occurs in `t` at position `i`.
fn occurs_at(t: &Vec<char>, w: &Vec<char>, i: usize) -> (res: bool)
    requires
        i + w@.len() <= t@.len(),
    ensures
        res == occurs(t@, w@, i as int),
{
    let m = w.len();
    let n = t.len();
    let mut j: usize = 0;
    while j < m
        invariant
            m == w@.len(),
            n == t@.len(),
            i + m <= n,
            0 <= j <= m,
            forall|k: int| 0 <= k < j ==> t@[i + k] == w@[k],
        decreases m - j,
    {
        if t[i + j] != w[j] {
            assert(t@.subrange(i as int, i + m)[j as int] != w@[j as int]);
            return false;
        }
        j = j + 1;
    }
    assert(t@.subrange(i as int, i + m) =~= w@);
    true
}

/// Whether `w` occurs in `t` at position `j` (false when it would run past
/// the end).
pub fn word_at(t: &Vec<char>, w: &Vec<char>, j: usize) -> (res: bool)
    ensures
        res == occurs(t@, w@, j as int),
{
    if w.len() > t.len() || j > t.len() - w.len() {
        false
    } else {
        occurs_at(t, w, j)
    }
}

/// The first position where `w` occurs in `t`, in characters.
pub fn find(t: &Vec<char>, w: &Vec<char>) -> (res: Option<usize>)
    ensures
        match res {
            Some(k) => first_index(t@, w@) == Some(k as nat),
            None => first_index(t@, w@) is None,
        },
{
    let n = t.len();
    let m = w.len();
    if m > n {
        return None;
    }
    if m == 0 {
        assert(occurs(t@, w@, 0)) by {
            assert(t@.subrange(0, 0) =~= w@);
        }
        return Some(0);
    }
    let mut i: usize = 0;
    while i <= n - m
        invariant
            n == t@.len(),
            m == w@.len(),
            1 <= m <= n,
            i <= n - m + 1,
            first_index(t@, w@) == find_from(t@, w@, i as nat),
        decreases n - i,
    {
        if occurs_at(t, w, i) {
            return Some(i);
        }
        i = i + 1;
    }
    None
}

/// Whether the word with the characters of `word` occurs in `t`.
pub fn contains(t: &Vec<char>, word: &str) -> (res: bool)
    ensures
        res == has(t@, word@),
{
    let w = chars_of(word);
    find(t, &w).is_some()
}

// ---------------------------------------------------------------------------
// Decimal rendering
// ---------------------------------------------------------------------------

pub open spec fn digit_char(d: int) -> char {
    (d + 48) as char
}

/// The decimal digits of `n`, without leading zeros.
pub open spec fn nat_decimal(n: nat) -> Seq<char>
    decreases n,
{
    if n < 10 {
        seq![digit_char(n as int)]
    } else {
        nat_decimal(n / 10) + seq![digit_char((n % 10) as int)]
    }
}

/// What `to_string` gives for an integer: its decimal digits, with a
/// leading `-` when it is negative.
pub open spec fn decimal(n: int) -> Seq<char> {
    if n < 0 {
        seq!['-'] + nat_decimal((-n) as nat)
    } else {
        nat_decimal(n as nat)
    }
}

fn digit_str(d: u64) -> (res: &'static str)
    requires
        d < 10,
    ensures
        res@ == seq![digit_char(d as int)],
{
    proof {
        reveal_strlit("0");
        reveal_strlit("1");
        reveal_strlit("2");
        reveal_strlit("3");
        reveal_strlit("4");
        reveal_strlit("5");
        reveal_strlit("6");
        reveal_strlit("7");
        reveal_strlit("8");
        reveal_strlit("9");
    }
    let r = match d {
        0 => "0",
        1 => "1",
        2 => "2",
        3 => "3",
        4 => "4",
        5 => "5",
        6 => "6",
        7 => "7",
        8 => "8",
        _ => "9",
    };
    assert(r@ =~= seq![digit_char(d as int)]);
    r
}

/// Appends the decimal digits of `n` to `out`.
pub fn push_nat(out: &mut String, n: u64)
    ensures
        final(out)@ == old(out)@ + nat_decimal(n as nat),
    decreases n,
{
    if n >= 10 {
        push_nat(out, n / 10);
    }
    out.append(digit_str(n % 10));
    proof {
        assert(final(out)@ =~= old(out)@ + nat_decimal(n as nat));
    }
}

/// Appends `n` in decimal, as `to_string` renders it, to `out`.
pub fn push_int(out: &mut String, n: i64)
    ensures
        final(out)@ == old(out)@ + decimal(n as int),
{
    if n < 0 {
        out.append("-");
        let m: u64 = if n == i64::MIN {
            9223372036854775808u64
        } else {
            (-n) as u64
        };
        push_nat(out, m);
        proof {
            reveal_strlit("-");
            assert(final(out)@ =~= old(out)@ + decimal(n as int));
        }
    } else {
        push_nat(out, n as u64);
    }
}

/// `n` rendered in decimal as a new string.
pub fn int_to_string(n: i64) -> (res: String)
    ensures
        res@ == decimal(n as int),
{
    let mut s = String::new();
    push_int(&mut s, n);
    assert(s@ =~= decimal(n as int));
    s
}

} // verus!
