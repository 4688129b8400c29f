use profile_query::filters::Filters;
use profile_query::nlp::{parse, parse_lowered};

fn parsed(q: &str) -> Filters {
    parse(q).expect("query should be understood")
}

#[test]
fn young_males_from_kenya() {
    let f = parsed("young males from kenya");
    assert_eq!(f.gender.as_deref(), Some("male"));
    assert_eq!(f.country_id.as_deref(), Some("KE"));
    assert_eq!(f.min_age, Some(18));
    assert_eq!(f.max_age, Some(35));
    assert_eq!(f.age_group, None);
    assert_eq!(f.sort_by, None);
    assert_eq!(f.page, None);
    assert_eq!(f.limit, None);
}

#[test]
fn case_is_ignored() {
    let f = parsed("Young MALES from KENYA");
    assert_eq!(f.gender.as_deref(), Some("male"));
    assert_eq!(f.country_id.as_deref(), Some("KE"));
    assert_eq!(f.min_age, Some(18));
}

#[test]
fn words_for_women_give_female() {
    for q in ["female", "females from nigeria", "woman", "women in rwanda"] {
        assert_eq!(parsed(q).gender.as_deref(), Some("female"), "query {q}");
    }
}

#[test]
fn words_for_men_give_male() {
    for q in ["male", "males", "man", "men"] {
        assert_eq!(parsed(q).gender.as_deref(), Some("male"), "query {q}");
    }
}

#[test]
fn both_sexes_give_no_gender_filter() {
    let f = parsed("male and female");
    assert_eq!(f.gender, None);
    let f = parsed("men or women");
    assert_eq!(f.gender, None);
}

#[test]
fn negation_is_not_understood() {
    assert_eq!(parsed("not male").gender.as_deref(), Some("male"));
}

#[test]
fn countries() {
    assert_eq!(parsed("people from nigeria").country_id.as_deref(), Some("NG"));
    assert_eq!(parsed("people from kenya").country_id.as_deref(), Some("KE"));
    assert_eq!(parsed("people from rwanda").country_id.as_deref(), Some("RW"));
    assert_eq!(parsed("nigeria or rwanda").country_id.as_deref(), Some("RW"));
}

#[test]
fn age_groups() {
    assert_eq!(parsed("teenagers").age_group.as_deref(), Some("teenager"));
    assert_eq!(parsed("teens").age_group.as_deref(), Some("teenager"));
    assert_eq!(parsed("adult males").age_group.as_deref(), Some("adult"));
    assert_eq!(parsed("seniors").age_group.as_deref(), Some("senior"));
    assert_eq!(parsed("teen or adult").age_group.as_deref(), Some("adult"));
}

#[test]
fn above_means_strictly_older() {
    assert_eq!(parsed("people above 30").min_age, Some(31));
    assert_eq!(parsed("over 40").min_age, Some(41));
    assert_eq!(parsed("older than 25").min_age, Some(26));
    assert_eq!(parsed("greater than 50").min_age, Some(51));
    assert_eq!(parsed("above    007 years").min_age, Some(8));
}

#[test]
fn below_means_strictly_younger() {
    assert_eq!(parsed("below 30").max_age, Some(29));
    assert_eq!(parsed("under 18").max_age, Some(17));
    assert_eq!(parsed("less than 65").max_age, Some(64));
    assert_eq!(parsed("under 0").max_age, Some(-1));
}

#[test]
fn later_comparisons_override_earlier_ones() {
    let f = parsed("young people above 20");
    assert_eq!(f.min_age, Some(21));
    assert_eq!(f.max_age, Some(35));
    let f = parsed("older than 20 but younger than 30");
    assert_eq!(f.min_age, Some(21));
    assert_eq!(f.max_age, Some(35));
}

#[test]
fn comparison_without_number_is_ignored() {
    assert!(parse("above average").is_none());
    let f = parsed("males above average");
    assert_eq!(f.min_age, None);
}

#[test]
fn number_too_large_for_i32_is_ignored() {
    assert!(parse("above 99999999999").is_none());
    let f = parsed("males above 99999999999");
    assert_eq!(f.min_age, None);
}

#[test]
fn above_largest_i32_is_refused() {
    assert!(parse("males above 2147483647").is_none());
    assert_eq!(parsed("males above 2147483646").min_age, Some(2147483647));
    assert_eq!(parsed("under 2147483647").max_age, Some(2147483646));
}

#[test]
fn confidence_words() {
    assert_eq!(parsed("high confidence males").min_gender_probability.as_deref(), Some("0.5"));
    assert_eq!(parsed("certain").min_gender_probability.as_deref(), Some("0.5"));
    assert_eq!(parsed("males").min_gender_probability, None);
}

#[test]
fn uninterpretable_queries() {
    assert!(parse("").is_none());
    assert!(parse("hello world").is_none());
    assert!(parse("people from ghana").is_none());
}

#[test]
fn non_ascii_digits_are_not_numbers() {
    assert!(parse("above ٣٠").is_none());
}

#[test]
fn number_search_stops_at_any_numeral() {
    assert!(parse("above ٣ 30").is_none());
    assert_eq!(parsed("males above ٣ 30").min_age, None);
    assert_eq!(parsed("males above ½ 30 years").min_age, None);
    assert_eq!(parsed("above, say, 30").min_age, Some(31));
}

#[test]
fn lower_case_form_reads_the_same() {
    for q in ["Young MALES from Kenya", "WOMEN above 40", "Über 30 SENIORS in RWANDA", "hello"] {
        let a = parse(q);
        let b = parse(&q.to_lowercase());
        assert_eq!(a.is_some(), b.is_some(), "query {q}");
        if let (Some(a), Some(b)) = (a, b) {
            assert_eq!(format!("{a:?}"), format!("{b:?}"));
        }
    }
    let a = parsed("Young MALES from Kenya");
    let b = parsed("young males from kenya");
    assert_eq!(format!("{a:?}"), format!("{b:?}"));
}

#[test]
fn parse_lowered_reads_lower_case_text() {
    let f = parse_lowered("women from kenya").unwrap();
    assert_eq!(f.gender.as_deref(), Some("female"));
    assert_eq!(f.country_id.as_deref(), Some("KE"));
    assert!(parse_lowered("WOMEN").is_none());
}

#[test]
fn numbers_read_back_as_written() {
    for n in [0, 1, 9, 10, 42, 1000, 2147483646] {
        assert_eq!(parsed(&format!("older than {n}")).min_age, Some(n + 1));
        assert_eq!(parsed(&format!("less than {n}")).max_age, Some(n - 1));
    }
}
