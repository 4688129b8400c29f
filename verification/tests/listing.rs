use profile_query::filters::Filters;
use profile_query::handlers::{
    interpret_query, plan_filtered_query, profiles_request, Binding, ErrorReply, NlpQuery,
    Pagination, BAD_REQUEST, INTERNAL_SERVER_ERROR,
};

const DATA_HEAD: &str = "SELECT id, name, gender, gender_probability, age, age_group, country_id, \
country_name, country_probability, created_at \n         FROM profiles ";

#[test]
fn plan_without_filters() {
    let plan = plan_filtered_query(Filters::default());
    assert_eq!(plan.count_sql, "SELECT COUNT(*) FROM profiles ");
    assert_eq!(
        plan.data_sql,
        format!("{DATA_HEAD} ORDER BY created_at DESC LIMIT $1 OFFSET $2")
    );
    assert!(plan.bindings.is_empty());
    assert_eq!(plan.sort_column, "created_at");
    assert_eq!((plan.page, plan.limit, plan.offset), (1, 10, 0));
}

#[test]
fn plan_with_filters() {
    let f = Filters {
        gender: Some("FEMALE".into()),
        country_id: Some("ke".into()),
        age_group: Some("Teenager".into()),
        min_age: Some(13),
        min_country_probability: Some("0.8".into()),
        sort_by: Some("name".into()),
        order: Some("ASC".into()),
        page: Some(2),
        limit: Some(25),
        ..Filters::default()
    };
    let plan = plan_filtered_query(f);
    let conds = "WHERE LOWER(gender) = $1 AND UPPER(country_id) = $2 AND LOWER(age_group) = $3 \
AND age >= $4 AND country_probability >= $5";
    assert_eq!(plan.count_sql, format!("SELECT COUNT(*) FROM profiles {conds}"));
    assert_eq!(
        plan.data_sql,
        format!("{DATA_HEAD}{conds} ORDER BY name ASC LIMIT $6 OFFSET $7")
    );
    assert_eq!(plan.bindings.len(), 5);
    assert!(matches!(&plan.bindings[0], Binding::Text(s) if s == "female"));
    assert!(matches!(&plan.bindings[1], Binding::Text(s) if s == "KE"));
    assert!(matches!(&plan.bindings[2], Binding::Text(s) if s == "teenager"));
    assert!(matches!(&plan.bindings[3], Binding::Int(13)));
    assert!(matches!(&plan.bindings[4], Binding::Decimal(s) if s == "0.8"));
    assert_eq!((plan.page, plan.limit, plan.offset), (2, 25, 25));
}

#[test]
fn plan_clamps_pagination() {
    let plan = plan_filtered_query(Filters { page: Some(-4), limit: Some(1000), ..Filters::default() });
    assert_eq!((plan.page, plan.limit, plan.offset), (1, 100, 0));
    let plan = plan_filtered_query(Filters { page: Some(3), limit: Some(-5), ..Filters::default() });
    assert_eq!((plan.page, plan.limit, plan.offset), (3, 1, 2));
}

#[test]
fn plan_order_is_case_insensitive() {
    let plan = plan_filtered_query(Filters { order: Some("AsC".into()), ..Filters::default() });
    assert!(plan.data_sql.contains("ORDER BY created_at ASC"));
    let plan = plan_filtered_query(Filters { order: Some("up".into()), ..Filters::default() });
    assert!(plan.data_sql.contains("ORDER BY created_at DESC"));
}

#[test]
fn listing_refuses_unknown_sort_column() {
    let f = Filters { sort_by: Some("password".into()), ..Filters::default() };
    let err = profiles_request(f).unwrap_err();
    assert_eq!(err.status, BAD_REQUEST);
    assert_eq!(err.message, "Invalid sort_by value");
}

#[test]
fn listing_accepts_known_sort_column() {
    let f = Filters { sort_by: Some("gender_probability".into()), ..Filters::default() };
    let plan = profiles_request(f).unwrap();
    assert_eq!(plan.sort_column, "gender_probability");
    let plan = profiles_request(Filters::default()).unwrap();
    assert_eq!(plan.sort_column, "created_at");
}

#[test]
fn plain_english_search_takes_request_paging() {
    let params = NlpQuery { q: Some("young women from rwanda".into()), page: Some(2), limit: Some(5) };
    let f = interpret_query(&params).unwrap();
    assert_eq!(f.gender.as_deref(), Some("female"));
    assert_eq!(f.country_id.as_deref(), Some("RW"));
    assert_eq!((f.page, f.limit), (Some(2), Some(5)));
    assert_eq!(f.sort_by, None);
    let plan = plan_filtered_query(f);
    assert_eq!(plan.sort_column, "created_at");
    assert_eq!((plan.page, plan.limit, plan.offset), (2, 5, 5));
}

#[test]
fn plain_english_search_refuses_unknown_words() {
    for q in [None, Some("".to_string()), Some("tell me a joke".to_string())] {
        let params = NlpQuery { q, page: None, limit: None };
        let err = interpret_query(&params).unwrap_err();
        assert_eq!(err.status, BAD_REQUEST);
        assert_eq!(err.message, "Could not interpret query");
    }
}

#[test]
fn server_error_reply() {
    let e = ErrorReply::internal("pool timed out".to_string());
    assert_eq!(e.status, INTERNAL_SERVER_ERROR);
    assert_eq!(e.message, "pool timed out");
}

#[test]
fn pagination_example_from_readme() {
    let p = Pagination::from_count(1, 10, Some(5));
    assert_eq!((p.page, p.limit, p.total, p.total_pages), (1, 10, 5, 1));
}

#[test]
fn pagination_rounds_pages_up() {
    assert_eq!(Pagination::from_count(1, 10, Some(25)).total_pages, 3);
    assert_eq!(Pagination::from_count(1, 10, Some(30)).total_pages, 3);
    assert_eq!(Pagination::from_count(1, 10, Some(0)).total_pages, 0);
    assert_eq!(Pagination::from_count(1, 1, Some(7)).total_pages, 7);
    assert_eq!(Pagination::from_count(1, 100, Some(101)).total_pages, 2);
}

#[test]
fn pagination_agrees_with_float_ceiling() {
    for total in [0i64, 1, 9, 10, 11, 99, 100, 101, 12345, 1 << 40] {
        for limit in [1i64, 3, 10, 100] {
            let expected = (total as f64 / limit as f64).ceil() as i64;
            assert_eq!(Pagination::from_count(1, limit, Some(total)).total_pages, expected);
        }
    }
}

#[test]
fn failed_count_counts_as_zero() {
    let p = Pagination::from_count(4, 10, None);
    assert_eq!((p.page, p.total, p.total_pages), (4, 0, 0));
}

#[test]
fn filter_values_never_reach_the_sql_text() {
    let a = Filters {
        gender: Some("male".into()),
        min_age: Some(20),
        min_gender_probability: Some("0.9".into()),
        ..Filters::default()
    };
    let b = Filters {
        gender: Some("x' OR '1'='1".into()),
        min_age: Some(-7),
        min_gender_probability: Some("1e-5".into()),
        ..Filters::default()
    };
    let pa = plan_filtered_query(a);
    let pb = plan_filtered_query(b);
    assert_eq!(pa.count_sql, pb.count_sql);
    assert_eq!(pa.data_sql, pb.data_sql);
    assert!(matches!(&pb.bindings[0], Binding::Text(s) if s == "x' or '1'='1"));
}

#[test]
fn every_condition_has_one_binding() {
    let f = Filters {
        gender: Some("f".into()),
        country_id: Some("ng".into()),
        age_group: Some("adult".into()),
        min_age: Some(1),
        max_age: Some(2),
        min_gender_probability: Some("0.1".into()),
        min_country_probability: Some("0.2".into()),
        ..Filters::default()
    };
    let plan = plan_filtered_query(f);
    assert_eq!(plan.bindings.len(), 7);
    assert!(plan.count_sql.ends_with("country_probability >= $7"));
    assert!(plan.data_sql.ends_with("LIMIT $8 OFFSET $9"));
}
