//! The filter set of a profile search, and the stand-alone SQL builder that
//! turns it into a parameterised PostgreSQL query.

use vstd::prelude::*;
use crate::text::{decimal, int_to_string, lowercase, push_int, str_eq, to_lowercase, to_uppercase, uppercase};
use crate::utils::MAX_LIMIT;

verus! {

/// The filters, sort order and page of a profile search.
///
/// The two probability thresholds are kept as the decimal text that
/// `to_string` writes for the number the client sent; they are only ever
/// rendered into a query parameter.
#[derive(Debug)]
pub struct Filters {
    pub gender: Option<String>,
    pub age_group: Option<String>,
    pub country_id: Option<String>,
    pub min_age: Option<i32>,
    pub max_age: Option<i32>,
    pub min_gender_probability: Option<String>,
    pub min_country_probability: Option<String>,
    pub sort_by: Option<String>,
    pub order: Option<String>,
    pub page: Option<i64>,
    pub limit: Option<i64>,
}

/// The contents of a `Filters`, with each string taken as its characters.
pub struct FiltersView {
    pub gender: Option<Seq<char>>,
    pub age_group: Option<Seq<char>>,
    pub country_id: Option<Seq<char>>,
    pub min_age: Option<i32>,
    pub max_age: Option<i32>,
    pub min_gender_probability: Option<Seq<char>>,
    pub min_country_probability: Option<Seq<char>>,
    pub sort_by: Option<Seq<char>>,
    pub order: Option<Seq<char>>,
    pub page: Option<i64>,
    pub limit: Option<i64>,
}

/// An optional string taken as its characters.
pub open spec fn opt_chars(o: Option<String>) -> Option<Seq<char>> {
    match o {
        Some(s) => Some(s@),
        None => None,
    }
}

impl View for Filters {
    type V = FiltersView;

    open spec fn view(&self) -> FiltersView {
        FiltersView {
            gender: opt_chars(self.gender),
            age_group: opt_chars(self.age_group),
            country_id: opt_chars(self.country_id),
            min_age: self.min_age,
            max_age: self.max_age,
            min_gender_probability: opt_chars(self.min_gender_probability),
            min_country_probability: opt_chars(self.min_country_probability),
            sort_by: opt_chars(self.sort_by),
            order: opt_chars(self.order),
            page: self.page,
            limit: self.limit,
        }
    }
}

/// The filter set with nothing in it.
pub open spec fn empty_filters() -> FiltersView {
    FiltersView {
        gender: None,
        age_group: None,
        country_id: None,
        min_age: None,
        max_age: None,
        min_gender_probability: None,
        min_country_probability: None,
        sort_by: None,
        order: None,
        page: None,
        limit: None,
    }
}

/// An optional filter set taken by its view.
pub open spec fn opt_filters(o: Option<Filters>) -> Option<FiltersView> {
    match o {
        Some(f) => Some(f@),
        None => None,
    }
}

impl Default for Filters {
    fn default() -> (res: Filters)
        ensures
            res@ == empty_filters(),
    {
        Filters {
            gender: None,
            age_group: None,
            country_id: None,
            min_age: None,
            max_age: None,
            min_gender_probability: None,
            min_country_probability: None,
            sort_by: None,
            order: None,
            page: None,
            limit: None,
        }
    }
}

// ---------------------------------------------------------------------------
// Conditions and placeholders
// ---------------------------------------------------------------------------

/// One condition of a `WHERE` clause: the text before its placeholder number
/// (such as `age >= $`), and the value that the placeholder stands for.
pub type Term = (Seq<char>, Seq<char>);

/// The `WHERE` conditions joined by ` AND `: the `i`-th is its prefix
/// (such as `age >= $`) followed by the placeholder number `i + 1`.
pub open spec fn render_conditions(prefixes: Seq<Seq<char>>) -> Seq<char>
    decreases prefixes.len(),
{
    if prefixes.len() == 0 {
        Seq::empty()
    } else if prefixes.len() == 1 {
        prefixes[0] + decimal(1)
    } else {
        render_conditions(prefixes.drop_last()) + " AND "@ + prefixes.last() + decimal(
            prefixes.len() as int,
        )
    }
}

/// `WHERE` and the conditions, or nothing when there are none.
pub open spec fn where_clause(prefixes: Seq<Seq<char>>) -> Seq<char> {
    if prefixes.len() == 0 {
        Seq::empty()
    } else {
        "WHERE "@ + render_conditions(prefixes)
    }
}

/// The condition texts before their placeholder numbers, in order.
pub open spec fn term_prefixes(terms: Seq<Term>) -> Seq<Seq<char>> {
    terms.map_values(|t: Term| t.0)
}

/// Appends the next condition, with placeholder number `n + 1`, to the
/// conditions built so far.
pub(crate) fn push_condition(conds: &mut String, n: usize, prefix: &str, Ghost(prefixes): Ghost<
    Seq<Seq<char>>,
>)
    requires
        old(conds)@ == render_conditions(prefixes),
        n == prefixes.len(),
        n < 100,
    ensures
        final(conds)@ == render_conditions(prefixes.push(prefix@)),
{
    if n > 0 {
        conds.append(" AND ");
    }
    conds.append(prefix);
    push_int(conds, (n + 1) as i64);
    proof {
        assert(prefixes.push(prefix@).drop_last() =~= prefixes);
        assert(conds@ =~= render_conditions(prefixes.push(prefix@)));
    }
}

/// The values that the placeholders of the conditions stand for, in order.
pub open spec fn term_values(terms: Seq<Term>) -> Seq<Seq<char>> {
    terms.map_values(|t: Term| t.1)
}

/// Appends one condition to the conditions built so far.
pub(crate) fn add_term(
    conds: &mut String,
    params: &mut Vec<String>,
    prefix: &str,
    value: String,
    Ghost(terms): Ghost<Seq<Term>>,
)
    requires
        old(conds)@ == render_conditions(term_prefixes(terms)),
        old(params).deep_view() == term_values(terms),
        terms.len() < 100,
    ensures
        final(conds)@ == render_conditions(term_prefixes(terms.push((prefix@, value@)))),
        final(params).deep_view() == term_values(terms.push((prefix@, value@))),
{
    let ghost new_terms = terms.push((prefix@, value@));
    let ghost v = value@;
    assert(params@.len() == params.deep_view().len());
    let ghost before = params@;
    let n = params.len();
    push_condition(conds, n, prefix, Ghost(term_prefixes(terms)));
    params.push(value);
    proof {
        assert(term_prefixes(terms).push(prefix@) =~= term_prefixes(new_terms));
        assert forall|i: int| 0 <= i < new_terms.len() implies params.deep_view()[i]
            == term_values(new_terms)[i] by {
            if i < terms.len() {
                assert(params@[i] == before[i]);
                assert(before.map(|_j: int, s: String| s.deep_view())[i] == term_values(terms)[i]);
            }
        }
        assert(params.deep_view() =~= term_values(new_terms));
    }
}

// ---------------------------------------------------------------------------
// Sort columns
// ---------------------------------------------------------------------------

/// The columns a client may sort by.
pub open spec fn valid_sort_column(s: Seq<char>) -> bool {
    ||| s == "age"@
    ||| s == "name"@
    ||| s == "country_name"@
    ||| s == "gender"@
    ||| s == "created_at"@
    ||| s == "gender_probability"@
    ||| s == "country_probability"@
}

/// Whether `s` names a column a client may sort by.
pub fn is_valid_sort_column(s: &str) -> (res: bool)
    ensures
        res == valid_sort_column(s@),
{
    str_eq(s, "age") || str_eq(s, "name") || str_eq(s, "country_name") || str_eq(s, "gender")
        || str_eq(s, "created_at") || str_eq(s, "gender_probability") || str_eq(
        s,
        "country_probability",
    )
}

/// The column the rows are sorted by: the one asked for, else `created_at`.
pub open spec fn sort_column(f: FiltersView) -> Seq<char> {
    match f.sort_by {
        Some(s) => s,
        None => "created_at"@,
    }
}

// ---------------------------------------------------------------------------
// build_query
// ---------------------------------------------------------------------------

pub open spec fn one_term(o: Option<Seq<char>>, prefix: Seq<char>) -> Seq<Term> {
    match o {
        Some(v) => seq![(prefix, v)],
        None => Seq::empty(),
    }
}

pub open spec fn map_opt(o: Option<Seq<char>>, f: spec_fn(Seq<char>) -> Seq<char>) -> Option<
    Seq<char>,
> {
    match o {
        Some(s) => Some(f(s)),
        None => None,
    }
}

pub open spec fn int_opt(o: Option<i32>) -> Option<Seq<char>> {
    match o {
        Some(n) => Some(decimal(n as int)),
        None => None,
    }
}

/// The conditions `build_query` puts in its `WHERE` clause, in order:
/// gender (lower-cased), country (upper-cased), age group (lower-cased),
/// lowest and highest age, lowest gender and country probability.
pub open spec fn build_terms(f: FiltersView) -> Seq<Term> {
    one_term(map_opt(f.gender, |s: Seq<char>| lowercase(s)), "LOWER(gender) = $"@)
        + one_term(map_opt(f.country_id, |s: Seq<char>| uppercase(s)), "UPPER(country_id) = $"@)
        + one_term(map_opt(f.age_group, |s: Seq<char>| lowercase(s)), "LOWER(age_group) = $"@)
        + one_term(int_opt(f.min_age), "age >= $"@)
        + one_term(int_opt(f.max_age), "age <= $"@)
        + one_term(f.min_gender_probability, "gender_probability >= $"@)
        + one_term(f.min_country_probability, "country_probability >= $"@)
}

/// The sort direction of `build_query`: ascending only for `asc` or `ASC`.
pub open spec fn build_order(f: FiltersView) -> Seq<char> {
    match f.order {
        Some(o) => if o == "asc"@ || o == "ASC"@ {
            "ASC"@
        } else {
            "DESC"@
        },
        None => "DESC"@,
    }
}

/// The page size of `build_query`: the one asked for, at most 100
/// (default 10).
pub open spec fn build_limit(f: FiltersView) -> int {
    match f.limit {
        Some(l) => if l < MAX_LIMIT { l as int } else { MAX_LIMIT as int },
        None => 10,
    }
}

/// The page of `build_query`: the one asked for (default 1).
pub open spec fn build_page(f: FiltersView) -> int {
    match f.page {
        Some(p) => p as int,
        None => 1,
    }
}

/// The offset of `build_query`: `(page - 1) * limit`.
pub open spec fn build_offset(f: FiltersView) -> int {
    (build_page(f) - 1) * build_limit(f)
}

/// `page - 1` and `(page - 1) * limit` both fit in an `i64`.
pub open spec fn build_offset_fits(f: FiltersView) -> bool {
    &&& build_page(f) - 1 >= i64::MIN
    &&& i64::MIN <= build_offset(f) <= i64::MAX
}

/// The message of a refused sort column.
pub open spec fn sort_error(col: Seq<char>) -> Seq<char> {
    "Invalid sort_by '"@ + col
        + "'. Allowed: age, name, country_name, gender, created_at, gender_probability, country_probability"@
}

/// What `build_query` returns: the query text and its positional
/// parameters, or the message that refuses the sort column.
pub open spec fn spec_build_query(f: FiltersView) -> Result<(Seq<char>, Seq<Seq<char>>), Seq<char>> {
    let terms = build_terms(f);
    let col = sort_column(f);
    if !valid_sort_column(col) {
        Err(sort_error(col))
    } else {
        let n = terms.len() as int;
        Ok(
            (
                "SELECT * FROM profiles "@ + where_clause(term_prefixes(terms)) + " ORDER BY "@ + col + " "@
                    + build_order(f) + " LIMIT $"@ + decimal(n + 1) + " OFFSET $"@ + decimal(
                    n + 2,
                ),
                term_values(terms) + seq![decimal(build_limit(f)), decimal(build_offset(f))],
            ),
        )
    }
}

/// The `WHERE` clause of `build_query` and the values of its placeholders.
#[verifier::rlimit(60)]
fn build_where(filters: &Filters) -> (res: (String, Vec<String>))
    ensures
        res.0@ == where_clause(term_prefixes(build_terms(filters@))),
        res.1.deep_view() == term_values(build_terms(filters@)),
        res.1@.len() == build_terms(filters@).len(),
        res.1@.len() <= 7,
{
    let ghost f = filters@;
    let mut conds = String::new();
    let mut params: Vec<String> = Vec::new();
    let ghost mut terms: Seq<Term> = Seq::empty();
    let ghost g = one_term(map_opt(f.gender, |s: Seq<char>| lowercase(s)), "LOWER(gender) = $"@);
    let ghost c = one_term(map_opt(f.country_id, |s: Seq<char>| uppercase(s)), "UPPER(country_id) = $"@);
    let ghost a = one_term(map_opt(f.age_group, |s: Seq<char>| lowercase(s)), "LOWER(age_group) = $"@);
    let ghost lo = one_term(int_opt(f.min_age), "age >= $"@);
    let ghost hi = one_term(int_opt(f.max_age), "age <= $"@);
    let ghost gp = one_term(f.min_gender_probability, "gender_probability >= $"@);
    let ghost cp = one_term(f.min_country_probability, "country_probability >= $"@);
    assert(conds@ =~= render_conditions(term_prefixes(terms)));
    assert(params.deep_view() =~= term_values(terms));

    if let Some(v) = &filters.gender {
        let x = to_lowercase(v.as_str());
        let ghost xv = x@;
        add_term(&mut conds, &mut params, "LOWER(gender) = $", x, Ghost(terms));
        proof { terms = terms.push(("LOWER(gender) = $"@, xv)); }
    }
    assert(terms =~= g);
    if let Some(v) = &filters.country_id {
        let x = to_uppercase(v.as_str());
        let ghost xv = x@;
        add_term(&mut conds, &mut params, "UPPER(country_id) = $", x, Ghost(terms));
        proof { terms = terms.push(("UPPER(country_id) = $"@, xv)); }
    }
    assert(terms =~= g + c);
    if let Some(v) = &filters.age_group {
        let x = to_lowercase(v.as_str());
        let ghost xv = x@;
        add_term(&mut conds, &mut params, "LOWER(age_group) = $", x, Ghost(terms));
        proof { terms = terms.push(("LOWER(age_group) = $"@, xv)); }
    }
    assert(terms =~= g + c + a);
    if let Some(v) = filters.min_age {
        let x = int_to_string(v as i64);
        let ghost xv = x@;
        add_term(&mut conds, &mut params, "age >= $", x, Ghost(terms));
        proof { terms = terms.push(("age >= $"@, xv)); }
    }
    assert(terms =~= g + c + a + lo);
    if let Some(v) = filters.max_age {
        let x = int_to_string(v as i64);
        let ghost xv = x@;
        add_term(&mut conds, &mut params, "age <= $", x, Ghost(terms));
        proof { terms = terms.push(("age <= $"@, xv)); }
    }
    assert(terms =~= g + c + a + lo + hi);
    if let Some(v) = &filters.min_gender_probability {
        let x = v.clone();
        let ghost xv = x@;
        add_term(&mut conds, &mut params, "gender_probability >= $", x, Ghost(terms));
        proof { terms = terms.push(("gender_probability >= $"@, xv)); }
    }
    assert(terms =~= g + c + a + lo + hi + gp);
    if let Some(v) = &filters.min_country_probability {
        let x = v.clone();
        let ghost xv = x@;
        add_term(&mut conds, &mut params, "country_probability >= $", x, Ghost(terms));
        proof { terms = terms.push(("country_probability >= $"@, xv)); }
    }
    assert(terms =~= build_terms(f));

    assert(params@.len() == params.deep_view().len());
    let where_text = if params.len() == 0 {
        String::new()
    } else {
        let mut w = String::from_str("WHERE ");
        w.append(conds.as_str());
        w
    };
    assert(params@.len() == params.deep_view().len());
    assert(where_text@ =~= where_clause(term_prefixes(terms)));
    (where_text, params)

}

/// Every placeholder of `build_query` has a parameter: one for each
/// condition, in order, then the page size and the offset.
pub proof fn lemma_build_placeholders(f: FiltersView)
    ensures
        spec_build_query(f) is Ok <==> valid_sort_column(sort_column(f)),
        spec_build_query(f) matches Ok((q, ps)) ==> ps.len() == build_terms(f).len() + 2
            && ps.subrange(0, build_terms(f).len() as int) == term_values(build_terms(f))
            && ps[build_terms(f).len() as int] == decimal(build_limit(f))
            && ps[build_terms(f).len() as int + 1] == decimal(build_offset(f)),
        build_terms(f).len() <= 7,
{
    if let Ok((q, ps)) = spec_build_query(f) {
        let n = build_terms(f).len() as int;
        assert(ps.subrange(0, n) =~= term_values(build_terms(f)));
    }
}

/// No filter value reaches the query text of `build_query`: two filter sets
/// with the same filters present, the same sort column and the same order
/// give the same query, and differ only in the parameters.
pub proof fn lemma_build_text_ignores_filter_values(f: FiltersView, g: FiltersView)
    requires
        f.gender is Some <==> g.gender is Some,
        f.country_id is Some <==> g.country_id is Some,
        f.age_group is Some <==> g.age_group is Some,
        f.min_age is Some <==> g.min_age is Some,
        f.max_age is Some <==> g.max_age is Some,
        f.min_gender_probability is Some <==> g.min_gender_probability is Some,
        f.min_country_probability is Some <==> g.min_country_probability is Some,
        sort_column(f) == sort_column(g),
        build_order(f) == build_order(g),
    ensures
        spec_build_query(f) matches Ok((q, _)) ==> spec_build_query(g) matches Ok((q2, _)) && q == q2,
{
    lemma_build_prefixes_by_presence(f);
    lemma_build_prefixes_by_presence(g);
}

/// The condition text `prefix` when `present`.
pub open spec fn present_term_prefix(present: bool, prefix: Seq<char>) -> Seq<Seq<char>> {
    if present {
        seq![prefix]
    } else {
        Seq::empty()
    }
}

/// The condition texts of `build_query`, from which filters are present
/// alone.
pub open spec fn build_prefixes_by_presence(f: FiltersView) -> Seq<Seq<char>> {
    present_term_prefix(f.gender is Some, "LOWER(gender) = $"@)
        + present_term_prefix(f.country_id is Some, "UPPER(country_id) = $"@)
        + present_term_prefix(f.age_group is Some, "LOWER(age_group) = $"@)
        + present_term_prefix(f.min_age is Some, "age >= $"@)
        + present_term_prefix(f.max_age is Some, "age <= $"@)
        + present_term_prefix(f.min_gender_probability is Some, "gender_probability >= $"@)
        + present_term_prefix(f.min_country_probability is Some, "country_probability >= $"@)
}

proof fn lemma_term_prefixes_concat(a: Seq<Term>, b: Seq<Term>)
    ensures
        term_prefixes(a + b) == term_prefixes(a) + term_prefixes(b),
{
    assert(term_prefixes(a + b) =~= term_prefixes(a) + term_prefixes(b));
}

proof fn lemma_build_prefixes_by_presence(f: FiltersView)
    ensures
        term_prefixes(build_terms(f)) == build_prefixes_by_presence(f),
{
    let t1 = one_term(map_opt(f.gender, |s: Seq<char>| lowercase(s)), "LOWER(gender) = $"@);
    let t2 = one_term(map_opt(f.country_id, |s: Seq<char>| uppercase(s)), "UPPER(country_id) = $"@);
    let t3 = one_term(map_opt(f.age_group, |s: Seq<char>| lowercase(s)), "LOWER(age_group) = $"@);
    let t4 = one_term(int_opt(f.min_age), "age >= $"@);
    let t5 = one_term(int_opt(f.max_age), "age <= $"@);
    let t6 = one_term(f.min_gender_probability, "gender_probability >= $"@);
    let t7 = one_term(f.min_country_probability, "country_probability >= $"@);
    assert(term_prefixes(t1) =~= present_term_prefix(f.gender is Some, "LOWER(gender) = $"@));
    assert(term_prefixes(t2) =~= present_term_prefix(f.country_id is Some, "UPPER(country_id) = $"@));
    assert(term_prefixes(t3) =~= present_term_prefix(f.age_group is Some, "LOWER(age_group) = $"@));
    assert(term_prefixes(t4) =~= present_term_prefix(f.min_age is Some, "age >= $"@));
    assert(term_prefixes(t5) =~= present_term_prefix(f.max_age is Some, "age <= $"@));
    assert(term_prefixes(t6) =~= present_term_prefix(f.min_gender_probability is Some, "gender_probability >= $"@));
    assert(term_prefixes(t7) =~= present_term_prefix(f.min_country_probability is Some, "country_probability >= $"@));
    lemma_term_prefixes_concat(t1, t2);
    lemma_term_prefixes_concat(t1 + t2, t3);
    lemma_term_prefixes_concat(t1 + t2 + t3, t4);
    lemma_term_prefixes_concat(t1 + t2 + t3 + t4, t5);
    lemma_term_prefixes_concat(t1 + t2 + t3 + t4 + t5, t6);
    lemma_term_prefixes_concat(t1 + t2 + t3 + t4 + t5 + t6, t7);
}

/// The query of `build_query`, with its sort direction taken from the order
/// asked for: ascending only for exactly `asc` or `ASC`, descending for no
/// order and for every other one (such as `DESC` or `Asc`).
pub open spec fn query_with_direction(f: FiltersView) -> Seq<char> {
    let n = build_terms(f).len() as int;
    let dir = if f.order == Some("asc"@) || f.order == Some("ASC"@) {
        "ASC"@
    } else {
        "DESC"@
    };
    "SELECT * FROM profiles "@ + where_clause(term_prefixes(build_terms(f))) + " ORDER BY "@
        + sort_column(f) + " "@ + dir + " LIMIT $"@ + decimal(n + 1) + " OFFSET $"@ + decimal(n + 2)
}

/// `build_query` sorts ascending only when the order is exactly `asc` or
/// `ASC`; with no order or any other it sorts descending, and the two
/// directions give different queries.
pub proof fn lemma_build_direction(f: FiltersView)
    ensures
        spec_build_query(f) matches Ok((q, _)) ==> q == query_with_direction(f),
        f.order == Some("DESC"@) ==> build_order(f) == "DESC"@,
        "ASC"@ != "DESC"@,
{
    reveal_strlit("ASC");
    reveal_strlit("DESC");
    reveal_strlit("asc");
    assert("ASC"@.len() != "DESC"@.len());
    assert("DESC"@ != "asc"@);
    assert("DESC"@ != "ASC"@);
}

/// Returns the PostgreSQL query (placeholders `$1`, `$2`, ...) and its
/// positional parameters for `filters`, or an error message when `sort_by`
/// names a column that may not be sorted by.
pub fn build_query(filters: &Filters) -> (res: Result<(String, Vec<String>), String>)
    requires
        valid_sort_column(sort_column(filters@)) ==> build_offset_fits(filters@),
    ensures
        match res {
            Ok((q, ps)) => spec_build_query(filters@) == Ok::<(Seq<char>, Seq<Seq<char>>), Seq<char>>((q@, ps.deep_view())),
            Err(e) => spec_build_query(filters@) == Err::<(Seq<char>, Seq<Seq<char>>), Seq<char>>(e@),
        },
        res matches Ok((q, _)) ==> q@ == query_with_direction(filters@),
{
    let ghost f = filters@;
    let (where_text, mut params) = build_where(filters);
    let col: &str = match &filters.sort_by {
        Some(s) => s.as_str(),
        None => "created_at",
    };
    if !is_valid_sort_column(col) {
        let mut msg = String::from_str("Invalid sort_by '");
        msg.append(col);
        msg.append(
            "'. Allowed: age, name, country_name, gender, created_at, gender_probability, country_probability",
        );
        assert(msg@ =~= sort_error(col@));
        return Err(msg);
    }
    let order: &str = match &filters.order {
        Some(o) => if str_eq(o.as_str(), "asc") || str_eq(o.as_str(), "ASC") {
            "ASC"
        } else {
            "DESC"
        },
        None => "DESC",
    };
    let limit: i64 = match filters.limit {
        Some(l) => if l < MAX_LIMIT { l } else { MAX_LIMIT },
        None => 10,
    };
    let page: i64 = match filters.page {
        Some(p) => p,
        None => 1,
    };
    let offset = (page - 1) * limit;

    let n = params.len();
    let mut query = String::from_str("SELECT * FROM profiles ");
    query.append(where_text.as_str());
    query.append(" ORDER BY ");
    query.append(col);
    query.append(" ");
    query.append(order);
    query.append(" LIMIT $");
    push_int(&mut query, (n + 1) as i64);
    query.append(" OFFSET $");
    push_int(&mut query, (n + 2) as i64);

    let ghost vals = params.deep_view();
    assert(vals == term_values(build_terms(f)));
    params.push(int_to_string(limit));
    params.push(int_to_string(offset));
    proof {
        lemma_build_direction(f);
        assert(query@ =~= spec_build_query(f)->Ok_0.0);
        assert(params.deep_view() =~= vals + seq![decimal(limit as int), decimal(offset as int)]);
    }
    Ok((query, params))
}

} // verus!
