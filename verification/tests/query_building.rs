use profile_query::filters::{build_query, Filters};

fn filters() -> Filters {
    Filters::default()
}

#[test]
fn default_query() {
    let (q, ps) = build_query(&filters()).unwrap();
    assert_eq!(q, "SELECT * FROM profiles  ORDER BY created_at DESC LIMIT $1 OFFSET $2");
    assert_eq!(ps, vec!["10".to_string(), "0".to_string()]);
}

#[test]
fn all_filters_in_order() {
    let f = Filters {
        gender: Some("Male".into()),
        country_id: Some("ng".into()),
        age_group: Some("ADULT".into()),
        min_age: Some(20),
        max_age: Some(-3),
        min_gender_probability: Some("0.5".into()),
        min_country_probability: Some("0.25".into()),
        sort_by: Some("age".into()),
        order: Some("ASC".into()),
        page: Some(3),
        limit: Some(500),
        ..filters()
    };
    let (q, ps) = build_query(&f).unwrap();
    assert_eq!(
        q,
        "SELECT * FROM profiles WHERE LOWER(gender) = $1 AND UPPER(country_id) = $2 AND \
         LOWER(age_group) = $3 AND age >= $4 AND age <= $5 AND gender_probability >= $6 AND \
         country_probability >= $7 ORDER BY age ASC LIMIT $8 OFFSET $9"
    );
    assert_eq!(ps, vec!["male", "NG", "adult", "20", "-3", "0.5", "0.25", "100", "200"]);
}

#[test]
fn order_other_than_asc_is_descending() {
    let f = Filters { order: Some("Asc".into()), ..filters() };
    let (q, _) = build_query(&f).unwrap();
    assert!(q.contains("ORDER BY created_at DESC"));
    let f = Filters { order: Some("asc".into()), ..filters() };
    let (q, _) = build_query(&f).unwrap();
    assert!(q.contains("ORDER BY created_at ASC"));
}

#[test]
fn invalid_sort_column_is_refused() {
    let f = Filters { sort_by: Some("id; DROP TABLE profiles".into()), ..filters() };
    assert_eq!(
        build_query(&f).unwrap_err(),
        "Invalid sort_by 'id; DROP TABLE profiles'. Allowed: age, name, country_name, gender, \
         created_at, gender_probability, country_probability"
    );
}

#[test]
fn every_allowed_sort_column_is_accepted() {
    for col in [
        "age", "name", "country_name", "gender", "created_at", "gender_probability",
        "country_probability",
    ] {
        let f = Filters { sort_by: Some(col.into()), ..filters() };
        let (q, _) = build_query(&f).unwrap();
        assert!(q.contains(&format!("ORDER BY {col} DESC")));
    }
}

#[test]
fn limit_is_not_clamped_from_below() {
    let f = Filters { limit: Some(-5), page: Some(0), ..filters() };
    let (_, ps) = build_query(&f).unwrap();
    assert_eq!(ps, vec!["-5", "5"]);
}

#[test]
fn single_condition() {
    let f = Filters { min_age: Some(2147483647), ..filters() };
    let (q, ps) = build_query(&f).unwrap();
    assert_eq!(
        q,
        "SELECT * FROM profiles WHERE age >= $1 ORDER BY created_at DESC LIMIT $2 OFFSET $3"
    );
    assert_eq!(ps, vec!["2147483647", "10", "0"]);
}

#[test]
fn build_text_ignores_filter_values() {
    let a = Filters { country_id: Some("ng".into()), max_age: Some(30), ..filters() };
    let b = Filters { country_id: Some("'; --".into()), max_age: Some(99), ..filters() };
    let (qa, pa) = build_query(&a).unwrap();
    let (qb, pb) = build_query(&b).unwrap();
    assert_eq!(qa, qb);
    assert_eq!(pa.len(), 4);
    assert_eq!(pb, vec!["'; --", "99", "10", "0"]);
}
