//! Keyword-based reading of a plain-English profile query into filters.
//!
//! The query is lower-cased, then scanned for a fixed vocabulary: words for
//! either sex, three countries, age words, comparison words followed by a
//! number, and words that ask for a confident gender guess.

use vstd::prelude::*;
use crate::filters::{Filters, FiltersView, opt_filters};
use crate::text::{
    chars_of, contains, find, first_index, has, lemma_find_from, lowercase, ascii_lower, all_ascii,
    occurs, to_lowercase, word_at, nat_decimal, digit_char, is_numeric, numeric_char,
};

verus! {

// ---------------------------------------------------------------------------
// Specification
// ---------------------------------------------------------------------------

/// A word for a woman occurs.
pub open spec fn female_word(t: Seq<char>) -> bool {
    has(t, "female"@) || has(t, "woman"@) || has(t, "women"@)
}

/// A word for a man occurs at `j` that is not the tail of a word for a woman
/// ("male" in "female", "man" in "woman", "men" in "women").
pub open spec fn male_word_at(t: Seq<char>, j: int) -> bool {
    ||| occurs(t, "male"@, j) && !occurs(t, "female"@, j - 2)
    ||| occurs(t, "man"@, j) && !occurs(t, "woman"@, j - 2)
    ||| occurs(t, "men"@, j) && !occurs(t, "women"@, j - 2)
}

/// A word for a man occurs on its own.
pub open spec fn male_word(t: Seq<char>) -> bool {
    exists|j: int| #[trigger] male_word_at(t, j)
}

/// The gender filter: none when both sexes are named.
pub open spec fn spec_gender(t: Seq<char>) -> Option<Seq<char>> {
    if female_word(t) && male_word(t) {
        None
    } else if female_word(t) {
        Some("female"@)
    } else if male_word(t) {
        Some("male"@)
    } else {
        None
    }
}

/// The country filter: of Nigeria, Kenya and Rwanda, the named one that
/// comes last in that list.
pub open spec fn spec_country(t: Seq<char>) -> Option<Seq<char>> {
    if has(t, "rwanda"@) {
        Some("RW"@)
    } else if has(t, "kenya"@) {
        Some("KE"@)
    } else if has(t, "nigeria"@) {
        Some("NG"@)
    } else {
        None
    }
}

pub open spec fn teen_word(t: Seq<char>) -> bool {
    has(t, "teenager"@) || has(t, "teen"@)
}

/// The age-group filter: of teenager, adult and senior, the named one that
/// comes last in that list.
pub open spec fn spec_age_group_word(t: Seq<char>) -> Option<Seq<char>> {
    if has(t, "senior"@) {
        Some("senior"@)
    } else if has(t, "adult"@) {
        Some("adult"@)
    } else if teen_word(t) {
        Some("teenager"@)
    } else {
        None
    }
}

pub open spec fn is_digit(c: char) -> bool {
    '0' <= c <= '9'
}

/// The first position at or after `j` that holds a numeric character (or
/// the end). Numeric characters are those of any script; the number itself
/// is then read from ASCII digits only.
pub open spec fn skip_non_numeric(t: Seq<char>, j: nat) -> nat
    decreases t.len() - j,
{
    if j >= t.len() {
        j
    } else if numeric_char(t[j as int]) {
        j
    } else {
        skip_non_numeric(t, j + 1)
    }
}

/// The end of the run of digits that starts at `j`.
pub open spec fn digits_end(t: Seq<char>, j: nat) -> nat
    decreases t.len() - j,
{
    if j >= t.len() {
        j
    } else if !is_digit(t[j as int]) {
        j
    } else {
        digits_end(t, j + 1)
    }
}

/// The number that a run of decimal digits denotes.
pub open spec fn digits_value(s: Seq<char>) -> int
    decreases s.len(),
{
    if s.len() == 0 {
        0
    } else {
        digits_value(s.drop_last()) * 10 + (s.last() as int - 48)
    }
}

/// The number that follows the first occurrence of `key`: skip to the first
/// numeric character after it, then read the run of ASCII digits that starts
/// there, when it is not empty and fits in an `i32`.
pub open spec fn number_after(t: Seq<char>, key: Seq<char>) -> Option<int> {
    match first_index(t, key) {
        None => None,
        Some(idx) => {
            let start = skip_non_numeric(t, idx + key.len());
            let end = digits_end(t, start);
            let v = digits_value(t.subrange(start as int, end as int));
            if start < end && v <= i32::MAX {
                Some(v)
            } else {
                None
            }
        },
    }
}

/// "above N" and its synonyms ask for ages from N + 1.
pub open spec fn after_above(t: Seq<char>, key: Seq<char>, cur: Option<i32>) -> Option<i32> {
    match number_after(t, key) {
        Some(n) => Some((n + 1) as i32),
        None => cur,
    }
}

/// "below N" and its synonyms ask for ages up to N - 1.
pub open spec fn after_below(t: Seq<char>, key: Seq<char>, cur: Option<i32>) -> Option<i32> {
    match number_after(t, key) {
        Some(n) => Some((n - 1) as i32),
        None => cur,
    }
}

/// The lowest age asked for: "young" gives 18, and each comparison word
/// that is followed by a number, taken in the order above, over, older than,
/// "above ", greater than, overrides what came before.
pub open spec fn spec_min_age(t: Seq<char>) -> Option<i32> {
    let young = if has(t, "young"@) { Some(18i32) } else { None };
    after_above(t, "greater than"@,
        after_above(t, "above "@,
        after_above(t, "older than"@,
        after_above(t, "over"@,
        after_above(t, "above"@, young)))))
}

/// The highest age asked for: "young" gives 35, and below, under, less than
/// followed by a number override it in that order.
pub open spec fn spec_max_age(t: Seq<char>) -> Option<i32> {
    let young = if has(t, "young"@) { Some(35i32) } else { None };
    after_below(t, "less than"@,
        after_below(t, "under"@,
        after_below(t, "below"@, young)))
}

/// A comparison word of the "above" kind is followed by `i32::MAX`, whose
/// successor does not fit in an `i32`.
pub open spec fn min_age_overflows(t: Seq<char>) -> bool {
    ||| number_after(t, "above"@) == Some(i32::MAX as int)
    ||| number_after(t, "over"@) == Some(i32::MAX as int)
    ||| number_after(t, "older than"@) == Some(i32::MAX as int)
    ||| number_after(t, "above "@) == Some(i32::MAX as int)
    ||| number_after(t, "greater than"@) == Some(i32::MAX as int)
}

pub open spec fn confidence_word(t: Seq<char>) -> bool {
    has(t, "high confidence"@) || has(t, "certain"@)
}

/// Some comparison word is followed by a number.
pub open spec fn number_word(t: Seq<char>) -> bool {
    ||| number_after(t, "above"@) is Some
    ||| number_after(t, "over"@) is Some
    ||| number_after(t, "older than"@) is Some
    ||| number_after(t, "above "@) is Some
    ||| number_after(t, "greater than"@) is Some
    ||| number_after(t, "below"@) is Some
    ||| number_after(t, "under"@) is Some
    ||| number_after(t, "less than"@) is Some
}

/// Some word of the vocabulary was recognised.
pub open spec fn recognised(t: Seq<char>) -> bool {
    ||| female_word(t)
    ||| male_word(t)
    ||| has(t, "nigeria"@)
    ||| has(t, "kenya"@)
    ||| has(t, "rwanda"@)
    ||| has(t, "young"@)
    ||| teen_word(t)
    ||| has(t, "adult"@)
    ||| has(t, "senior"@)
    ||| number_word(t)
    ||| confidence_word(t)
}

/// The filters that a lower-cased query asks for, or none when no word of
/// the vocabulary occurs in it.
pub open spec fn spec_parse(t: Seq<char>) -> Option<FiltersView> {
    if recognised(t) {
        Some(FiltersView {
            gender: spec_gender(t),
            age_group: spec_age_group_word(t),
            country_id: spec_country(t),
            min_age: spec_min_age(t),
            max_age: spec_max_age(t),
            min_gender_probability: if confidence_word(t) { Some("0.5"@) } else { None },
            min_country_probability: None,
            sort_by: None,
            order: None,
            page: None,
            limit: None,
        })
    } else {
        None
    }
}

/// What `parse` gives for a lower-cased query: nothing when an "above"
/// number has no successor in `i32`, else `spec_parse`.
pub open spec fn parse_outcome(t: Seq<char>) -> Option<FiltersView> {
    if min_age_overflows(t) {
        None
    } else {
        spec_parse(t)
    }
}

/// Reading back a number written in decimal gives the number: the digits
/// that `to_string` writes for `n` are all digits, and denote `n`.
pub proof fn lemma_digits_roundtrip(n: nat)
    ensures
        digits_value(nat_decimal(n)) == n,
        forall|k: int| 0 <= k < nat_decimal(n).len() ==> is_digit(#[trigger] nat_decimal(n)[k]),
        nat_decimal(n).len() >= 1,
    decreases n,
{
    if n >= 10 {
        lemma_digits_roundtrip(n / 10);
        let s = nat_decimal(n);
        assert(s.drop_last() =~= nat_decimal(n / 10));
        assert(s.last() == digit_char((n % 10) as int));
        assert(digit_char((n % 10) as int) as int == (n % 10) + 48);
        assert(n == (n / 10) * 10 + n % 10);
        assert(digits_value(s) == digits_value(s.drop_last()) * 10 + (s.last() as int - 48));
        assert forall|k: int| 0 <= k < s.len() implies is_digit(#[trigger] s[k]) by {
            if k < s.len() - 1 {
                assert(s[k] == nat_decimal(n / 10)[k]);
            }
        }
    } else {
        assert(nat_decimal(n).drop_last() =~= Seq::<char>::empty());
        assert(digit_char(n as int) as int == n + 48);
        let s = nat_decimal(n);
        assert(digits_value(s.drop_last()) == 0);
        assert(digits_value(s) == digits_value(s.drop_last()) * 10 + (s.last() as int - 48));
    }
}

/// Case does not matter: two queries with the same lower-case form are read
/// the same way.
pub proof fn lemma_parse_ignores_case(q1: Seq<char>, q2: Seq<char>)
    requires
        lowercase(q1) == lowercase(q2),
    ensures
        parse_outcome(lowercase(q1)) == parse_outcome(lowercase(q2)),
{
}

/// For queries written in ASCII, lower-casing maps `A`..`Z` to `a`..`z`,
/// so queries that differ only in the case of letters are read the same way.
pub proof fn lemma_parse_ignores_ascii_case(q1: Seq<char>, q2: Seq<char>)
    requires
        ascii_lower(q1) == ascii_lower(q2),
    ensures
        parse_outcome(ascii_lower(q1)) == parse_outcome(ascii_lower(q2)),
{
}

/// A query written in ASCII reads the same as its lower-case form: its
/// lower-case form is ASCII as well and lower-casing it again changes
/// nothing, so `parse(q)` and `parse(&q.to_lowercase())` agree.
pub proof fn lemma_parse_of_lowered_ascii_query(q: Seq<char>)
    requires
        all_ascii(q),
    ensures
        all_ascii(ascii_lower(q)),
        ascii_lower(ascii_lower(q)) == ascii_lower(q),
        parse_outcome(ascii_lower(ascii_lower(q))) == parse_outcome(ascii_lower(q)),
{
    let l = ascii_lower(q);
    assert forall|i: int| 0 <= i < l.len() implies (#[trigger] l[i] as u32) < 128 by {
        assert((q[i] as u32) < 128);
    }
    assert(ascii_lower(l) =~= l);
}

/// One of the words of the vocabulary occurs in `t`: a word for a man or a
/// woman, one of the three countries, an age word, or a confidence word.
pub open spec fn names_vocabulary_word(t: Seq<char>) -> bool {
    ||| has(t, "male"@) || has(t, "man"@) || has(t, "men"@)
    ||| has(t, "female"@) || has(t, "woman"@) || has(t, "women"@)
    ||| has(t, "nigeria"@) || has(t, "kenya"@) || has(t, "rwanda"@)
    ||| has(t, "young"@) || has(t, "teen"@) || has(t, "adult"@) || has(t, "senior"@)
    ||| has(t, "high confidence"@) || has(t, "certain"@)
}

/// Some comparison word is followed by a number.
pub open spec fn names_comparison_number(t: Seq<char>) -> bool {
    ||| number_after(t, "above"@) is Some || number_after(t, "above "@) is Some
    ||| number_after(t, "over"@) is Some
    ||| number_after(t, "older than"@) is Some || number_after(t, "greater than"@) is Some
    ||| number_after(t, "below"@) is Some || number_after(t, "under"@) is Some
    ||| number_after(t, "less than"@) is Some
}

proof fn lemma_occurs_has(t: Seq<char>, w: Seq<char>, k: int)
    requires
        occurs(t, w, k),
    ensures
        has(t, w),
{
    lemma_find_from(t, w, 0);
}

proof fn lemma_has_occurs(t: Seq<char>, w: Seq<char>) -> (k: int)
    requires
        has(t, w),
    ensures
        occurs(t, w, k),
        k >= 0,
{
    lemma_find_from(t, w, 0);
    first_index(t, w)->0 as int
}

/// A word for a man is read as one, either alone or as the tail of a word
/// for a woman.
proof fn lemma_male_words_read(t: Seq<char>)
    requires
        has(t, "male"@) || has(t, "man"@) || has(t, "men"@),
    ensures
        female_word(t) || male_word(t),
{
    if has(t, "male"@) {
        let j = lemma_has_occurs(t, "male"@);
        if occurs(t, "female"@, j - 2) {
            lemma_occurs_has(t, "female"@, j - 2);
        } else {
            assert(male_word_at(t, j));
        }
    } else if has(t, "man"@) {
        let j = lemma_has_occurs(t, "man"@);
        if occurs(t, "woman"@, j - 2) {
            lemma_occurs_has(t, "woman"@, j - 2);
        } else {
            assert(male_word_at(t, j));
        }
    } else {
        let j = lemma_has_occurs(t, "men"@);
        if occurs(t, "women"@, j - 2) {
            lemma_occurs_has(t, "women"@, j - 2);
        } else {
            assert(male_word_at(t, j));
        }
    }
}

/// A query is read exactly when it names a word of the vocabulary or has a
/// number after a comparison word; a query naming "young" is read, and asks
/// for ages 18 to 35 unless a comparison number overrides a bound.
pub proof fn lemma_vocabulary_is_read(t: Seq<char>)
    ensures
        spec_parse(t) is Some <==> (names_vocabulary_word(t) || names_comparison_number(t)),
        has(t, "young"@) ==> spec_parse(t) is Some,
        has(t, "young"@) && number_after(t, "above"@) is None && number_after(t, "over"@) is None
            && number_after(t, "older than"@) is None && number_after(t, "above "@) is None
            && number_after(t, "greater than"@) is None ==> spec_parse(t)->0.min_age == Some(18i32),
        has(t, "young"@) && number_after(t, "below"@) is None && number_after(t, "under"@) is None
            && number_after(t, "less than"@) is None ==> spec_parse(t)->0.max_age == Some(35i32),
{
    if has(t, "male"@) || has(t, "man"@) || has(t, "men"@) {
        lemma_male_words_read(t);
    }
    if has(t, "teenager"@) {
        let j = lemma_has_occurs(t, "teenager"@);
        assert(t.subrange(j, j + 4) =~= "teen"@) by {
            reveal_strlit("teenager");
            reveal_strlit("teen");
            assert(t.subrange(j, j + 8) == "teenager"@);
            assert forall|i: int| 0 <= i < 4 implies t.subrange(j, j + 4)[i] == "teen"@[i] by {
                assert(t.subrange(j, j + 4)[i] == t.subrange(j, j + 8)[i]);
            }
        }
        reveal_strlit("teen");
        reveal_strlit("teenager");
        lemma_occurs_has(t, "teen"@, j);
    }
    if male_word(t) {
        let j = choose|j: int| #[trigger] male_word_at(t, j);
        if occurs(t, "male"@, j) {
            lemma_occurs_has(t, "male"@, j);
        } else if occurs(t, "man"@, j) {
            lemma_occurs_has(t, "man"@, j);
        } else {
            lemma_occurs_has(t, "men"@, j);
        }
    }
}

// ---------------------------------------------------------------------------
// Implementation
// ---------------------------------------------------------------------------

fn is_digit_char(c: char) -> (res: bool)
    ensures
        res == is_digit(c),
{
    '0' <= c && c <= '9'
}

proof fn lemma_digits_value_step(t: Seq<char>, start: int, j: int)
    requires
        0 <= start <= j < t.len(),
    ensures
        digits_value(t.subrange(start, j + 1)) == digits_value(t.subrange(start, j)) * 10 + (
        t[j] as int - 48),
{
    assert(t.subrange(start, j + 1).drop_last() =~= t.subrange(start, j));
}

/// The number that follows the first occurrence of `key` in `t`.
fn number_after_key(t: &Vec<char>, key: &str) -> (res: Option<i32>)
    ensures
        match res {
            Some(n) => number_after(t@, key@) == Some(n as int),
            None => number_after(t@, key@) is None,
        },
{
    let w = chars_of(key);
    let found = find(t, &w);
    match found {
        None => None,
        Some(idx) => {
            proof {
                lemma_find_from(t@, w@, 0);
            }
            let n = t.len();
            let mut j: usize = idx + w.len();
            let ghost from: nat = (idx + w@.len()) as nat;
            while j < n && !is_numeric(t[j])
                invariant
                    n == t@.len(),
                    from <= j <= n,
                    skip_non_numeric(t@, from) == skip_non_numeric(t@, j as nat),
                decreases n - j,
            {
                j = j + 1;
            }
            let start = j;
            assert(skip_non_numeric(t@, from) == start);
            let mut val: i64 = 0;
            let big: i64 = 2147483648;
            while j < n && is_digit_char(t[j])
                invariant
                    n == t@.len(),
                    start <= j <= n,
                    digits_end(t@, start as nat) == digits_end(t@, j as nat),
                    forall|k: int| start <= k < j ==> is_digit(#[trigger] t@[k]),
                    val == if digits_value(t@.subrange(start as int, j as int)) > i32::MAX {
                        big as int
                    } else {
                        digits_value(t@.subrange(start as int, j as int))
                    },
                    0 <= val <= big,
                    big == i32::MAX + 1,
                decreases n - j,
            {
                proof {
                    lemma_digits_value_step(t@, start as int, j as int);
                }
                let d = (t[j] as u32 - 48) as i64;
                if val < big {
                    let next = val * 10 + d;
                    val = if next > big { big } else { next };
                }
                j = j + 1;
            }
            let end = j;
            assert(digits_end(t@, start as nat) == end);
            if start < end && val < big {
                Some(val as i32)
            } else {
                None
            }
        },
    }
}

/// Whether a word for a man occurs in `t` on its own.
fn has_male_word(t: &Vec<char>) -> (res: bool)
    ensures
        res == male_word(t@),
{
    let male = chars_of("male");
    let female = chars_of("female");
    let man = chars_of("man");
    let woman = chars_of("woman");
    let men = chars_of("men");
    let women = chars_of("women");
    let n = t.len();
    let mut j: usize = 0;
    while j < n
        invariant
            n == t@.len(),
            j <= n,
            male@ == "male"@,
            female@ == "female"@,
            man@ == "man"@,
            woman@ == "woman"@,
            men@ == "men"@,
            women@ == "women"@,
            forall|k: int| 0 <= k < j ==> !#[trigger] male_word_at(t@, k),
        decreases n - j,
    {
        let tail_of_female = j >= 2 && word_at(t, &female, j - 2);
        let tail_of_woman = j >= 2 && word_at(t, &woman, j - 2);
        let tail_of_women = j >= 2 && word_at(t, &women, j - 2);
        let hit = (word_at(t, &male, j) && !tail_of_female) || (word_at(t, &man, j)
            && !tail_of_woman) || (word_at(t, &men, j) && !tail_of_women);
        if hit {
            assert(male_word_at(t@, j as int));
            return true;
        }
        j = j + 1;
    }
    proof {
        reveal_strlit("male");
        reveal_strlit("man");
        reveal_strlit("men");
        assert forall|k: int| !#[trigger] male_word_at(t@, k) by {
            if 0 <= k < j {
            }
        }
    }
    false
}

/// Applies an "above"-kind comparison word to the lowest age so far.
fn apply_above(t: &Vec<char>, key: &str, cur: Option<i32>) -> (res: (Option<i32>, bool))
    requires
        number_after(t@, key@) != Some(i32::MAX as int),
    ensures
        res.0 == after_above(t@, key@, cur),
        res.1 == number_after(t@, key@) is Some,
{
    match number_after_key(t, key) {
        Some(n) => (Some(n + 1), true),
        None => (cur, false),
    }
}

/// Applies a "below"-kind comparison word to the highest age so far.
fn apply_below(t: &Vec<char>, key: &str, cur: Option<i32>) -> (res: (Option<i32>, bool))
    ensures
        res.0 == after_below(t@, key@, cur),
        res.1 == number_after(t@, key@) is Some,
{
    match number_after_key(t, key) {
        Some(n) => {
            assert(n >= 0) by {
                lemma_digits_value_nonneg_after(t@, key@);
            }
            (Some(n - 1), true)
        },
        None => (cur, false),
    }
}

proof fn lemma_digits_value_nonneg(s: Seq<char>)
    ensures
        digits_value(s) >= 0 || exists|k: int| 0 <= k < s.len() && !is_digit(#[trigger] s[k]),
    decreases s.len(),
{
    if s.len() > 0 {
        lemma_digits_value_nonneg(s.drop_last());
        if exists|k: int| 0 <= k < s.drop_last().len() && !is_digit(#[trigger] s.drop_last()[k]) {
            let k = choose|k: int| 0 <= k < s.drop_last().len() && !is_digit(#[trigger] s.drop_last()[k]);
            assert(!is_digit(s[k]));
        } else if !is_digit(s.last()) {
            assert(!is_digit(s[s.len() - 1]));
        }
    }
}

proof fn lemma_digit_run(t: Seq<char>, j: nat)
    ensures
        j <= digits_end(t, j),
        j <= t.len() ==> digits_end(t, j) <= t.len(),
        forall|k: int| j <= k < digits_end(t, j) ==> is_digit(#[trigger] t[k]),
    decreases t.len() - j,
{
    if j < t.len() && is_digit(t[j as int]) {
        lemma_digit_run(t, j + 1);
    }
}

proof fn lemma_digits_value_nonneg_after(t: Seq<char>, key: Seq<char>)
    ensures
        number_after(t, key) matches Some(n) ==> n >= 0,
{
    if let Some(idx) = first_index(t, key) {
        let start = skip_non_numeric(t, idx + key.len());
        let end = digits_end(t, start);
        if start < end {
            lemma_digit_run(t, start);
            let s = t.subrange(start as int, end as int);
            lemma_digits_value_nonneg(s);
            assert forall|k: int| 0 <= k < s.len() implies is_digit(#[trigger] s[k]) by {
                assert(s[k] == t[start + k]);
            }
        }
    }
}

/// The filters that the lower-cased query `t` asks for.
fn parse_chars(t: &Vec<char>) -> (res: Option<Filters>)
    requires
        !min_age_overflows(t@),
    ensures
        opt_filters(res) == spec_parse(t@),
{
    let female = contains(t, "female") || contains(t, "woman") || contains(t, "women");
    let male = has_male_word(t);
    let gender: Option<String> = if female && male {
        None
    } else if female {
        Some(String::from_str("female"))
    } else if male {
        Some(String::from_str("male"))
    } else {
        None
    };

    let nigeria = contains(t, "nigeria");
    let kenya = contains(t, "kenya");
    let rwanda = contains(t, "rwanda");
    let country_id: Option<String> = if rwanda {
        Some(String::from_str("RW"))
    } else if kenya {
        Some(String::from_str("KE"))
    } else if nigeria {
        Some(String::from_str("NG"))
    } else {
        None
    };

    let young = contains(t, "young");
    let teen = contains(t, "teenager") || contains(t, "teen");
    let adult = contains(t, "adult");
    let senior = contains(t, "senior");
    let age_group: Option<String> = if senior {
        Some(String::from_str("senior"))
    } else if adult {
        Some(String::from_str("adult"))
    } else if teen {
        Some(String::from_str("teenager"))
    } else {
        None
    };

    let min_age: Option<i32> = if young { Some(18) } else { None };
    let (min_age, h1) = apply_above(t, "above", min_age);
    let (min_age, h2) = apply_above(t, "over", min_age);
    let (min_age, h3) = apply_above(t, "older than", min_age);
    let (min_age, h4) = apply_above(t, "above ", min_age);
    let (min_age, h5) = apply_above(t, "greater than", min_age);

    let max_age: Option<i32> = if young { Some(35) } else { None };
    let (max_age, h6) = apply_below(t, "below", max_age);
    let (max_age, h7) = apply_below(t, "under", max_age);
    let (max_age, h8) = apply_below(t, "less than", max_age);

    let confident = contains(t, "high confidence") || contains(t, "certain");
    let min_gender_probability: Option<String> = if confident {
        Some(String::from_str("0.5"))
    } else {
        None
    };

    let matched = female || male || nigeria || kenya || rwanda || young || teen || adult || senior
        || h1 || h2 || h3 || h4 || h5 || h6 || h7 || h8 || confident;
    if matched {
        Some(
            Filters {
                gender,
                age_group,
                country_id,
                min_age,
                max_age,
                min_gender_probability,
                min_country_probability: None,
                sort_by: None,
                order: None,
                page: None,
                limit: None,
            },
        )
    } else {
        None
    }
}

/// Whether some "above"-kind comparison word is followed by `i32::MAX`.
fn min_age_overflow(t: &Vec<char>) -> (res: bool)
    ensures
        res == min_age_overflows(t@),
{
    let max = 2147483647i32;
    number_after_key(t, "above") == Some(max) || number_after_key(t, "over") == Some(max)
        || number_after_key(t, "older than") == Some(max) || number_after_key(t, "above ")
        == Some(max) || number_after_key(t, "greater than") == Some(max)
}

/// Reads filters out of a query that is already in lower case.
///
/// Returns `None` when no word of the vocabulary occurs in it.
pub fn parse_lowered(text: &str) -> (res: Option<Filters>)
    requires
        !min_age_overflows(text@),
    ensures
        opt_filters(res) == spec_parse(text@),
        res is Some <==> names_vocabulary_word(text@) || names_comparison_number(text@),
        has(text@, "young"@) ==> res is Some,
{
    proof {
        lemma_vocabulary_is_read(text@);
    }
    let t = chars_of(text);
    parse_chars(&t)
}

/// Reads filters out of a plain-English query such as
/// "young males from kenya", ignoring case.
///
/// Returns `None` when no word of the vocabulary occurs in the query, and
/// also when an "above"-kind word is followed by 2147483647, whose
/// successor no `i32` holds.
pub fn parse(q: &str) -> (res: Option<Filters>)
    ensures
        opt_filters(res) == parse_outcome(lowercase(q@)),
        all_ascii(q@) ==> opt_filters(res) == parse_outcome(ascii_lower(q@)),
        !min_age_overflows(lowercase(q@)) ==> (res is Some <==> names_vocabulary_word(lowercase(q@))
            || names_comparison_number(lowercase(q@))),
        !min_age_overflows(lowercase(q@)) && has(lowercase(q@), "young"@) ==> res is Some,
{
    proof {
        lemma_vocabulary_is_read(lowercase(q@));
    }
    let lowered = to_lowercase(q);
    let t = chars_of(lowered.as_str());
    if min_age_overflow(&t) {
        None
    } else {
        parse_lowered(lowered.as_str())
    }
}

} // verus!
