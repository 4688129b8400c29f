use vstd::prelude::*;

verus! {

/// The age bracket that `age` falls in.
pub open spec fn spec_age_group(age: int) -> Seq<char> {
    if 0 <= age <= 12 {
        "child"@
    } else if 13 <= age <= 19 {
        "teenager"@
    } else if 20 <= age <= 64 {
        "adult"@
    } else {
        "senior"@
    }
}

/// Names the age bracket of `age`: 0 to 12 is a child, 13 to 19 a teenager,
/// 20 to 64 an adult, and everything else (negative ages included) a senior.
pub fn age_group(age: i32) -> (res: String)
    ensures
        res@ == spec_age_group(age as int),
        0 <= age <= 12 ==> res@ == "child"@,
        13 <= age <= 19 ==> res@ == "teenager"@,
        20 <= age <= 64 ==> res@ == "adult"@,
        (age < 0 || age > 64) ==> res@ == "senior"@,
{
    if 0 <= age && age <= 12 {
        String::from_str("child")
    } else if 13 <= age && age <= 19 {
        String::from_str("teenager")
    } else if 20 <= age && age <= 64 {
        String::from_str("adult")
    } else {
        String::from_str("senior")
    }
}

/// The age brackets cover every age once, in this order along the number
/// line: 0 to 12 a child, 13 to 19 a teenager, 20 to 64 an adult, anything
/// else a senior; the four names differ from one another.
pub proof fn lemma_age_brackets(age: int)
    ensures
        0 <= age <= 12 ==> spec_age_group(age) == "child"@,
        13 <= age <= 19 ==> spec_age_group(age) == "teenager"@,
        20 <= age <= 64 ==> spec_age_group(age) == "adult"@,
        (age < 0 || age > 64) ==> spec_age_group(age) == "senior"@,
        spec_age_group(age) == "child"@ <==> 0 <= age <= 12,
        spec_age_group(age) == "teenager"@ <==> 13 <= age <= 19,
        spec_age_group(age) == "adult"@ <==> 20 <= age <= 64,
        spec_age_group(age) == "senior"@ <==> (age < 0 || age > 64),
{
    reveal_strlit("child");
    reveal_strlit("teenager");
    reveal_strlit("adult");
    reveal_strlit("senior");
    assert("child"@.len() == 5 && "adult"@.len() == 5 && "senior"@.len() == 6
        && "teenager"@.len() == 8);
    assert("child"@[0] != "adult"@[0]);
    assert("child"@ != "teenager"@);
    assert("child"@ != "adult"@);
    assert("child"@ != "senior"@);
    assert("teenager"@ != "adult"@);
    assert("teenager"@ != "senior"@);
    assert("adult"@ != "senior"@);
}

// ---------------------------------------------------------------------------
// Replies of the name-lookup services
// ---------------------------------------------------------------------------

/// What genderize.io answers for a name.
///
/// `probability_bits` holds the IEEE-754 bit pattern of the probability.
#[derive(Debug)]
pub struct Genderize {
    pub gender: Option<String>,
    pub probability_bits: u64,
    pub count: i64,
}

/// What agify.io answers for a name.
#[derive(Debug)]
pub struct Agify {
    pub age: Option<i32>,
}

/// What nationalize.io answers for a name.
#[derive(Debug)]
pub struct Nationalize {
    pub country: Vec<Country>,
}

/// One country guess of nationalize.io.
///
/// `probability_bits` holds the IEEE-754 bit pattern of the probability.
#[derive(Debug, Clone)]
pub struct Country {
    pub country_id: String,
    pub probability_bits: u64,
}

/// The outcome of comparing two probabilities.
#[derive(Debug, Clone, Copy, PartialEq, Eq, Structural)]
pub enum Comparison {
    Less,
    Equal,
    Greater,
}

/// Bit 63, the sign bit of an `f64`.
pub open spec fn sign_bit() -> int {
    0x8000_0000_0000_0000
}

/// The `f64` with bit pattern `b` is a NaN: all exponent bits set and a
/// non-zero fraction.
pub open spec fn f64_is_nan(b: u64) -> bool {
    b as int % sign_bit() > 0x7ff0_0000_0000_0000
}

/// A number that orders `f64` values that are not NaN as the values
/// themselves order: the magnitude bits, negated when the sign bit is set
/// (so that both zeros rank 0).
pub open spec fn f64_rank(b: u64) -> int {
    if b as int >= sign_bit() {
        0 - (b as int - sign_bit())
    } else {
        b as int
    }
}

/// How `PartialOrd` orders the `f64` values with bit patterns `a` and `b`,
/// with no ordering (a NaN on either side) taken as equal.
pub open spec fn f64_order(a: u64, b: u64) -> Comparison {
    if f64_is_nan(a) || f64_is_nan(b) {
        Comparison::Equal
    } else if f64_rank(a) < f64_rank(b) {
        Comparison::Less
    } else if f64_rank(a) > f64_rank(b) {
        Comparison::Greater
    } else {
        Comparison::Equal
    }
}

/// Compares two probabilities given by their bit patterns, a NaN comparing
/// equal to everything.
pub fn compare_probability(a: u64, b: u64) -> (res: Comparison)
    ensures
        res == f64_order(a, b),
{
    let sign: u64 = 0x8000_0000_0000_0000;
    let exp_all: u64 = 0x7ff0_0000_0000_0000;
    let a_mag = if a >= sign { a - sign } else { a };
    let b_mag = if b >= sign { b - sign } else { b };
    if a_mag > exp_all || b_mag > exp_all {
        return Comparison::Equal;
    }
    let a_neg = a >= sign && a_mag != 0;
    let b_neg = b >= sign && b_mag != 0;
    if a_neg && !b_neg {
        Comparison::Less
    } else if !a_neg && b_neg {
        Comparison::Greater
    } else if a_neg {
        if a_mag > b_mag {
            Comparison::Less
        } else if a_mag < b_mag {
            Comparison::Greater
        } else {
            Comparison::Equal
        }
    } else {
        if a_mag < b_mag {
            Comparison::Less
        } else if a_mag > b_mag {
            Comparison::Greater
        } else {
            Comparison::Equal
        }
    }
}

/// The probabilities of a list of countries, as bit patterns.
pub open spec fn probabilities(cs: Seq<Country>) -> Seq<u64> {
    cs.map_values(|c: Country| c.probability_bits)
}

/// The position that `Iterator::max_by` picks with `f64_order`: it keeps the
/// best so far unless the next one compares not below it, so that of
/// several equal maxima the last wins.
pub open spec fn best_index(s: Seq<u64>) -> int
    decreases s.len(),
{
    if s.len() <= 1 {
        0
    } else {
        let i = best_index(s.drop_last());
        if f64_order(s[i], s.last()) == Comparison::Greater {
            i
        } else {
            s.len() - 1
        }
    }
}

/// The country guess with the highest probability, the last of several
/// that tie; none for an empty list.
pub fn best_country(countries: Vec<Country>) -> (res: Option<Country>)
    ensures
        countries@.len() == 0 ==> res is None,
        countries@.len() > 0 ==> res == Some(countries@[best_index(probabilities(countries@))]),
{
    let n = countries.len();
    if n == 0 {
        return None;
    }
    let ghost ps = probabilities(countries@);
    let mut best: usize = 0;
    let mut i: usize = 1;
    while i < n
        invariant
            n == countries@.len(),
            ps == probabilities(countries@),
            1 <= i <= n,
            best < i,
            best as int == best_index(ps.take(i as int)),
        decreases n - i,
    {
        proof {
            assert(ps.take(i + 1).drop_last() =~= ps.take(i as int));
            assert(ps.take(i + 1).last() == ps[i as int]);
            assert(ps.take(i + 1)[best as int] == ps[best as int]);
            assert(ps[best as int] == countries@[best as int].probability_bits);
            assert(ps[i as int] == countries@[i as int].probability_bits);
        }
        let ghost cur = ps.take(i + 1);
        assert(best_index(cur) == if f64_order(cur[best as int], cur.last()) == Comparison::Greater {
            best as int
        } else {
            i as int
        });
        if compare_probability(countries[best].probability_bits, countries[i].probability_bits)
            != Comparison::Greater {
            best = i;
        }
        assert(best as int == best_index(cur));
        i = i + 1;
    }
    assert(ps.take(n as int) =~= ps);
    let mut cs = countries;
    Some(cs.remove(best))
}

/// When no probability is NaN, the picked country has a probability no
/// other exceeds, and every later one has a strictly lower probability.
pub proof fn lemma_best_is_last_maximum(s: Seq<u64>)
    requires
        s.len() > 0,
        forall|j: int| 0 <= j < s.len() ==> !f64_is_nan(#[trigger] s[j]),
    ensures
        0 <= best_index(s) < s.len(),
        forall|j: int| 0 <= j < s.len() ==> f64_rank(#[trigger] s[j]) <= f64_rank(s[best_index(s)]),
        forall|j: int| best_index(s) < j < s.len() ==> f64_rank(#[trigger] s[j]) < f64_rank(s[best_index(s)]),
    decreases s.len(),
{
    if s.len() > 1 {
        let p = s.drop_last();
        lemma_best_is_last_maximum(p);
        assert forall|j: int| 0 <= j < p.len() implies f64_rank(#[trigger] s[j]) <= f64_rank(s[best_index(p)]) by {
            assert(s[j] == p[j]);
        }
        assert forall|j: int| best_index(p) < j < p.len() implies f64_rank(#[trigger] s[j]) < f64_rank(s[best_index(p)]) by {
            assert(s[j] == p[j]);
        }
        assert(s[best_index(p)] == p[best_index(p)]);
        assert(!f64_is_nan(s[s.len() - 1]));
    }
}

/// Why a name could not be looked up.
#[derive(Debug, Clone, Copy, PartialEq, Eq, Structural)]
pub enum LookupError {
    /// genderize.io gave no gender, or based it on no sample.
    UnknownGender,
    /// agify.io gave no age.
    NoAge,
    /// nationalize.io gave no country.
    NoCountry,
}

pub open spec fn lookup_error_message(e: LookupError) -> Seq<char> {
    match e {
        LookupError::UnknownGender => "Could not determine gender for the provided name"@,
        LookupError::NoAge => "Agify returned no age"@,
        LookupError::NoCountry => "Nationalize returned no countries"@,
    }
}

impl LookupError {
    /// The message this error is reported with.
    pub fn message(&self) -> (res: String)
        ensures
            res@ == lookup_error_message(*self),
    {
        match self {
            LookupError::UnknownGender => String::from_str(
                "Could not determine gender for the provided name",
            ),
            LookupError::NoAge => String::from_str("Agify returned no age"),
            LookupError::NoCountry => String::from_str("Nationalize returned no countries"),
        }
    }
}

/// Checks the three replies for a name: a gender with a non-zero sample,
/// an age, and at least one country, of which the likeliest is kept.
pub fn validate_lookup(gender: Genderize, age: Agify, nationality: Nationalize) -> (res: Result<
    (Genderize, Agify, Country),
    LookupError,
>)
    ensures
        (gender.gender is None || gender.count == 0) ==> res == Err::<(Genderize, Agify, Country), LookupError>(LookupError::UnknownGender),
        !(gender.gender is None || gender.count == 0) && age.age is None ==> res == Err::<(Genderize, Agify, Country), LookupError>(LookupError::NoAge),
        !(gender.gender is None || gender.count == 0) && age.age is Some && nationality.country@.len() == 0
            ==> res == Err::<(Genderize, Agify, Country), LookupError>(LookupError::NoCountry),
        !(gender.gender is None || gender.count == 0) && age.age is Some && nationality.country@.len() > 0
            ==> res == Ok::<(Genderize, Agify, Country), LookupError>((gender, age, nationality.country@[best_index(probabilities(nationality.country@))])),
{
    if gender.gender.is_none() || gender.count == 0 {
        return Err(LookupError::UnknownGender);
    }
    if age.age.is_none() {
        return Err(LookupError::NoAge);
    }
    match best_country(nationality.country) {
        Some(best) => Ok((gender, age, best)),
        None => Err(LookupError::NoCountry),
    }
}

} // verus!
