use profile_query::services::{
    age_group, best_country, compare_probability, validate_lookup, Agify, Comparison, Country,
    Genderize, LookupError, Nationalize,
};
use profile_query::text::{int_to_string, str_eq};
use profile_query::utils::{new_profile_id, now, QueryParams};

#[test]
fn age_group_boundaries() {
    let cases = [
        (-1, "senior"), (0, "child"), (12, "child"), (13, "teenager"), (19, "teenager"),
        (20, "adult"), (64, "adult"), (65, "senior"), (i32::MIN, "senior"), (i32::MAX, "senior"),
    ];
    for (age, group) in cases {
        assert_eq!(age_group(age), group, "age {age}");
    }
}

#[test]
fn query_params_limit_is_clamped() {
    let p = QueryParams { limit: Some(1000), ..QueryParams::default() };
    assert_eq!(p.limit(), 100);
    let p = QueryParams { limit: Some(-5), ..QueryParams::default() };
    assert_eq!(p.limit(), 1);
    assert_eq!(QueryParams::default().limit(), 10);
}

#[test]
fn query_params_page_and_offset() {
    let p = QueryParams { page: Some(0), ..QueryParams::default() };
    assert_eq!(p.page(), 1);
    assert_eq!(p.offset(), 0);
    let p = QueryParams { page: Some(4), limit: Some(20), ..QueryParams::default() };
    assert_eq!((p.page(), p.limit(), p.offset()), (4, 20, 60));
    assert_eq!(QueryParams::default().page(), 1);
}

fn country(id: &str, p: f64) -> Country {
    Country { country_id: id.to_string(), probability_bits: p.to_bits() }
}

#[test]
fn best_country_is_likeliest_and_last_of_ties() {
    assert!(best_country(vec![]).is_none());
    let best = best_country(vec![country("NG", 0.2), country("KE", 0.7), country("RW", 0.1)]);
    assert_eq!(best.unwrap().country_id, "KE");
    let best = best_country(vec![country("NG", 0.5), country("KE", 0.5), country("RW", 0.1)]);
    assert_eq!(best.unwrap().country_id, "KE");
}

#[test]
fn best_country_matches_iterator_max_by() {
    let lists: Vec<Vec<f64>> = vec![
        vec![0.1, 0.3, 0.2],
        vec![0.0, -0.0, 0.0],
        vec![0.4, f64::NAN, 0.1],
        vec![f64::NAN, 0.1, 0.2],
        vec![-1.5, -2.0, f64::INFINITY, 3.0],
        vec![f64::NEG_INFINITY],
    ];
    for ps in lists {
        let cs: Vec<Country> =
            ps.iter().enumerate().map(|(i, p)| country(&i.to_string(), *p)).collect();
        let expected = cs
            .clone()
            .into_iter()
            .max_by(|a, b| {
                f64::from_bits(a.probability_bits)
                    .partial_cmp(&f64::from_bits(b.probability_bits))
                    .unwrap_or(std::cmp::Ordering::Equal)
            })
            .unwrap();
        assert_eq!(best_country(cs).unwrap().country_id, expected.country_id);
    }
}

#[test]
fn compare_probability_agrees_with_floats() {
    let values = [
        0.0, -0.0, 0.5, -0.5, 1.0, 1e-300, -1e-300, f64::MIN_POSITIVE, f64::MAX, f64::MIN,
        f64::INFINITY, f64::NEG_INFINITY, f64::NAN, -f64::NAN,
    ];
    for a in values {
        for b in values {
            let expected = match a.partial_cmp(&b) {
                Some(std::cmp::Ordering::Less) => Comparison::Less,
                Some(std::cmp::Ordering::Greater) => Comparison::Greater,
                _ => Comparison::Equal,
            };
            assert_eq!(compare_probability(a.to_bits(), b.to_bits()), expected, "{a} vs {b}");
        }
    }
}

fn genderize(gender: Option<&str>, count: i64) -> Genderize {
    Genderize { gender: gender.map(|s| s.to_string()), probability_bits: 0.9f64.to_bits(), count }
}

#[test]
fn lookup_needs_gender_with_a_sample() {
    let nat = || Nationalize { country: vec![country("NG", 0.4)] };
    let e = validate_lookup(genderize(None, 10), Agify { age: Some(30) }, nat()).unwrap_err();
    assert_eq!(e, LookupError::UnknownGender);
    assert_eq!(e.message(), "Could not determine gender for the provided name");
    let e = validate_lookup(genderize(Some("male"), 0), Agify { age: None }, nat()).unwrap_err();
    assert_eq!(e, LookupError::UnknownGender);
}

#[test]
fn lookup_needs_age_then_country() {
    let e = validate_lookup(
        genderize(Some("female"), 3),
        Agify { age: None },
        Nationalize { country: vec![] },
    )
    .unwrap_err();
    assert_eq!(e, LookupError::NoAge);
    assert_eq!(e.message(), "Agify returned no age");
    let e = validate_lookup(
        genderize(Some("female"), 3),
        Agify { age: Some(41) },
        Nationalize { country: vec![] },
    )
    .unwrap_err();
    assert_eq!(e, LookupError::NoCountry);
    assert_eq!(e.message(), "Nationalize returned no countries");
}

#[test]
fn lookup_keeps_likeliest_country() {
    let (g, a, c) = validate_lookup(
        genderize(Some("female"), 3),
        Agify { age: Some(41) },
        Nationalize { country: vec![country("US", 0.05), country("NG", 0.6), country("GH", 0.3)] },
    )
    .unwrap();
    assert_eq!(g.gender.as_deref(), Some("female"));
    assert_eq!(a.age, Some(41));
    assert_eq!(c.country_id, "NG");
    assert_eq!(f64::from_bits(c.probability_bits), 0.6);
}

#[test]
fn profile_ids_are_v7_uuids() {
    let a = new_profile_id();
    let b = new_profile_id();
    for id in [&a, &b] {
        assert_eq!(id.len(), 36);
        for (i, c) in id.chars().enumerate() {
            if [8, 13, 18, 23].contains(&i) {
                assert_eq!(c, '-');
            } else {
                assert!(c.is_ascii_digit() || ('a'..='f').contains(&c));
            }
        }
        assert_eq!(id.as_bytes()[14], b'7');
        assert!(b"89ab".contains(&id.as_bytes()[19]));
    }
    assert_ne!(a, b);
}

fn is_utc_rfc3339(s: &str) -> bool {
    let b = s.as_bytes();
    let digits = |from: usize, to: usize| b[from..to].iter().all(|c| c.is_ascii_digit());
    if b.len() < 25 || !s.ends_with("+00:00") {
        return false;
    }
    [0usize, 4, 7, 10].iter().any(|&frac| {
        if b.len() < 25 + frac {
            return false;
        }
        let m = b.len() - 21 - frac;
        let year_ok = (m == 4 && digits(0, 4))
            || (m >= 5 && (b[0] == b'+' || b[0] == b'-') && digits(1, m));
        year_ok
            && b[m] == b'-'
            && digits(m + 1, m + 3)
            && b[m + 3] == b'-'
            && digits(m + 4, m + 6)
            && b[m + 6] == b'T'
            && digits(m + 7, m + 9)
            && b[m + 9] == b':'
            && digits(m + 10, m + 12)
            && b[m + 12] == b':'
            && digits(m + 13, m + 15)
            && (frac == 0 || (b[m + 15] == b'.' && digits(m + 16, m + 15 + frac)))
    })
}

#[test]
fn timestamps_are_utc_rfc3339() {
    let t = now();
    assert!(is_utc_rfc3339(&t), "{t}");
    assert!(is_utc_rfc3339("2024-01-02T03:04:05.123456789+00:00"));
    assert!(is_utc_rfc3339("2024-01-02T03:04:05+00:00"));
    assert!(is_utc_rfc3339("+10000-01-02T03:04:05.123+00:00"));
    assert!(!is_utc_rfc3339("+00:00"));
    assert!(!is_utc_rfc3339("2024-01-02 03:04:05+00:00"));
    assert!(!is_utc_rfc3339("2024-01-02T03:04:05.12+00:00"));
}

#[test]
fn integers_render_like_to_string() {
    for n in [0i64, 7, -7, 10, 99, 100, 12345, -98765, i64::MAX, i64::MIN, i32::MAX as i64] {
        assert_eq!(int_to_string(n), n.to_string());
    }
}

#[test]
fn string_equality() {
    assert!(str_eq("created_at", "created_at"));
    assert!(!str_eq("created_at", "created_a"));
    assert!(!str_eq("Age", "age"));
    assert!(str_eq("", ""));
}
