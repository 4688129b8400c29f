//! The decisions behind the profile-search endpoints: which requests are
//! refused and with what, and which SQL runs for the others.

use vstd::prelude::*;
use crate::filters::{
    Filters, FiltersView, int_opt, map_opt, push_condition, render_conditions, sort_column,
    valid_sort_column, is_valid_sort_column, where_clause,
};
use crate::nlp::{parse, parse_outcome};
use crate::text::{all_ascii, ascii_lower, decimal, lowercase, push_int, str_eq, to_lowercase, to_uppercase, uppercase};
use crate::utils::{
    clamp_limit, clamp_page, effective_limit, effective_offset, effective_page, offset_fits,
    page_offset,
};

verus! {

/// A value bound to a placeholder of a query.
///
/// A probability threshold is bound as a number, and is kept here as the
/// decimal text of that number.
#[derive(Debug)]
pub enum Binding {
    Text(String),
    Int(i32),
    Decimal(String),
}

pub enum BindingView {
    Text(Seq<char>),
    Int(i32),
    Decimal(Seq<char>),
}

impl View for Binding {
    type V = BindingView;

    open spec fn view(&self) -> BindingView {
        match self {
            Binding::Text(s) => BindingView::Text(s@),
            Binding::Int(n) => BindingView::Int(*n),
            Binding::Decimal(s) => BindingView::Decimal(s@),
        }
    }
}

/// The two queries of a filtered, paginated profile listing.
///
/// `count_sql` counts the matching rows and takes `bindings`; `data_sql`
/// fetches one page and takes `bindings`, then `limit`, then `offset`.
#[derive(Debug)]
pub struct QueryPlan {
    pub count_sql: String,
    pub data_sql: String,
    pub bindings: Vec<Binding>,
    pub sort_column: String,
    pub page: i64,
    pub limit: i64,
    pub offset: i64,
}

pub struct QueryPlanView {
    pub count_sql: Seq<char>,
    pub data_sql: Seq<char>,
    pub bindings: Seq<BindingView>,
    pub sort_column: Seq<char>,
    pub page: i64,
    pub limit: i64,
    pub offset: i64,
}

impl View for QueryPlan {
    type V = QueryPlanView;

    open spec fn view(&self) -> QueryPlanView {
        QueryPlanView {
            count_sql: self.count_sql@,
            data_sql: self.data_sql@,
            bindings: self.bindings@.map_values(|b: Binding| b@),
            sort_column: self.sort_column@,
            page: self.page,
            limit: self.limit,
            offset: self.offset,
        }
    }
}

/// A condition of the listing query: the text before its placeholder
/// number, and the value bound to that placeholder.
pub type PlanTerm = (Seq<char>, BindingView);

pub open spec fn text_term(o: Option<Seq<char>>, prefix: Seq<char>) -> Seq<PlanTerm> {
    match o {
        Some(v) => seq![(prefix, BindingView::Text(v))],
        None => Seq::empty(),
    }
}

pub open spec fn int_term(o: Option<i32>, prefix: Seq<char>) -> Seq<PlanTerm> {
    match o {
        Some(n) => seq![(prefix, BindingView::Int(n))],
        None => Seq::empty(),
    }
}

pub open spec fn decimal_term(o: Option<Seq<char>>, prefix: Seq<char>) -> Seq<PlanTerm> {
    match o {
        Some(v) => seq![(prefix, BindingView::Decimal(v))],
        None => Seq::empty(),
    }
}

/// The conditions of the listing, in order: gender (lower-cased), country
/// (upper-cased), age group (lower-cased), lowest and highest age, lowest
/// gender and country probability.
pub open spec fn plan_terms(f: FiltersView) -> Seq<PlanTerm> {
    text_term(map_opt(f.gender, |s: Seq<char>| lowercase(s)), "LOWER(gender) = $"@)
        + text_term(map_opt(f.country_id, |s: Seq<char>| uppercase(s)), "UPPER(country_id) = $"@)
        + text_term(map_opt(f.age_group, |s: Seq<char>| lowercase(s)), "LOWER(age_group) = $"@)
        + int_term(f.min_age, "age >= $"@)
        + int_term(f.max_age, "age <= $"@)
        + decimal_term(f.min_gender_probability, "gender_probability >= $"@)
        + decimal_term(f.min_country_probability, "country_probability >= $"@)
}

pub open spec fn plan_prefixes(terms: Seq<PlanTerm>) -> Seq<Seq<char>> {
    terms.map_values(|t: PlanTerm| t.0)
}

pub open spec fn plan_bindings(terms: Seq<PlanTerm>) -> Seq<BindingView> {
    terms.map_values(|t: PlanTerm| t.1)
}

/// The listing sorts in descending order unless the order asked for is
/// `asc` in any case.
pub open spec fn plan_descending(f: FiltersView) -> bool {
    match f.order {
        Some(o) => lowercase(o) != "asc"@,
        None => true,
    }
}

pub open spec fn count_sql(prefixes: Seq<Seq<char>>) -> Seq<char> {
    "SELECT COUNT(*) FROM profiles "@ + where_clause(prefixes)
}

pub open spec fn data_sql(prefixes: Seq<Seq<char>>, col: Seq<char>, descending: bool) -> Seq<char> {
    let n = prefixes.len() as int;
    "SELECT id, name, gender, gender_probability, age, age_group, country_id, country_name, country_probability, created_at \n         FROM profiles "@
        + where_clause(prefixes) + " ORDER BY "@ + col + " "@ + (if descending {
        "DESC"@
    } else {
        "ASC"@
    }) + " LIMIT $"@ + decimal(n + 1) + " OFFSET $"@ + decimal(n + 2)
}

/// The queries, bindings and page of the listing that `f` asks for.
pub open spec fn spec_plan(f: FiltersView) -> QueryPlanView {
    let terms = plan_terms(f);
    let prefixes = plan_prefixes(terms);
    QueryPlanView {
        count_sql: count_sql(prefixes),
        data_sql: data_sql(prefixes, sort_column(f), plan_descending(f)),
        bindings: plan_bindings(terms),
        sort_column: sort_column(f),
        page: effective_page(f.page) as i64,
        limit: effective_limit(f.limit) as i64,
        offset: effective_offset(f.page, f.limit) as i64,
    }
}

/// Appends one condition and its binding.
fn add_binding(
    conds: &mut String,
    bindings: &mut Vec<Binding>,
    prefix: &str,
    value: Binding,
    Ghost(terms): Ghost<Seq<PlanTerm>>,
)
    requires
        old(conds)@ == render_conditions(plan_prefixes(terms)),
        old(bindings)@.map_values(|b: Binding| b@) == plan_bindings(terms),
        terms.len() < 100,
    ensures
        final(conds)@ == render_conditions(plan_prefixes(terms.push((prefix@, value@)))),
        final(bindings)@.map_values(|b: Binding| b@) == plan_bindings(
            terms.push((prefix@, value@)),
        ),
{
    let ghost new_terms = terms.push((prefix@, value@));
    let ghost v = value@;
    let ghost before = bindings@;
    assert(bindings@.len() == before.map_values(|b: Binding| b@).len());
    let n = bindings.len();
    push_condition(conds, n, prefix, Ghost(plan_prefixes(terms)));
    bindings.push(value);
    proof {
        assert(plan_prefixes(terms).push(prefix@) =~= plan_prefixes(new_terms));
        assert forall|i: int| 0 <= i < new_terms.len() implies bindings@.map_values(
            |b: Binding| b@,
        )[i] == plan_bindings(new_terms)[i] by {
            if i < terms.len() {
                assert(bindings@[i] == before[i]);
                assert(before.map_values(|b: Binding| b@)[i] == plan_bindings(terms)[i]);
            }
        }
        assert(bindings@.map_values(|b: Binding| b@) =~= plan_bindings(new_terms));
    }
}

/// The `WHERE` clause of the listing and its bindings.
#[verifier::rlimit(60)]
fn plan_where(filters: &Filters) -> (res: (String, Vec<Binding>))
    ensures
        res.0@ == where_clause(plan_prefixes(plan_terms(filters@))),
        res.1@.map_values(|b: Binding| b@) == plan_bindings(plan_terms(filters@)),
        res.1@.len() == plan_terms(filters@).len(),
        res.1@.len() <= 7,
{
    let ghost f = filters@;
    let mut conds = String::new();
    let mut bindings: Vec<Binding> = Vec::new();
    let ghost mut terms: Seq<PlanTerm> = Seq::empty();
    let ghost g = text_term(map_opt(f.gender, |s: Seq<char>| lowercase(s)), "LOWER(gender) = $"@);
    let ghost c = text_term(map_opt(f.country_id, |s: Seq<char>| uppercase(s)), "UPPER(country_id) = $"@);
    let ghost a = text_term(map_opt(f.age_group, |s: Seq<char>| lowercase(s)), "LOWER(age_group) = $"@);
    let ghost lo = int_term(f.min_age, "age >= $"@);
    let ghost hi = int_term(f.max_age, "age <= $"@);
    let ghost gp = decimal_term(f.min_gender_probability, "gender_probability >= $"@);
    assert(conds@ =~= render_conditions(plan_prefixes(terms)));
    assert(bindings@.map_values(|b: Binding| b@) =~= plan_bindings(terms));

    if let Some(v) = &filters.gender {
        let x = Binding::Text(to_lowercase(v.as_str()));
        let ghost xv = x@;
        add_binding(&mut conds, &mut bindings, "LOWER(gender) = $", x, Ghost(terms));
        proof { terms = terms.push(("LOWER(gender) = $"@, xv)); }
    }
    assert(terms =~= g);
    if let Some(v) = &filters.country_id {
        let x = Binding::Text(to_uppercase(v.as_str()));
        let ghost xv = x@;
        add_binding(&mut conds, &mut bindings, "UPPER(country_id) = $", x, Ghost(terms));
        proof { terms = terms.push(("UPPER(country_id) = $"@, xv)); }
    }
    assert(terms =~= g + c);
    if let Some(v) = &filters.age_group {
        let x = Binding::Text(to_lowercase(v.as_str()));
        let ghost xv = x@;
        add_binding(&mut conds, &mut bindings, "LOWER(age_group) = $", x, Ghost(terms));
        proof { terms = terms.push(("LOWER(age_group) = $"@, xv)); }
    }
    assert(terms =~= g + c + a);
    if let Some(v) = filters.min_age {
        let x = Binding::Int(v);
        let ghost xv = x@;
        add_binding(&mut conds, &mut bindings, "age >= $", x, Ghost(terms));
        proof { terms = terms.push(("age >= $"@, xv)); }
    }
    assert(terms =~= g + c + a + lo);
    if let Some(v) = filters.max_age {
        let x = Binding::Int(v);
        let ghost xv = x@;
        add_binding(&mut conds, &mut bindings, "age <= $", x, Ghost(terms));
        proof { terms = terms.push(("age <= $"@, xv)); }
    }
    assert(terms =~= g + c + a + lo + hi);
    if let Some(v) = &filters.min_gender_probability {
        let x = Binding::Decimal(v.clone());
        let ghost xv = x@;
        add_binding(&mut conds, &mut bindings, "gender_probability >= $", x, Ghost(terms));
        proof { terms = terms.push(("gender_probability >= $"@, xv)); }
    }
    assert(terms =~= g + c + a + lo + hi + gp);
    if let Some(v) = &filters.min_country_probability {
        let x = Binding::Decimal(v.clone());
        let ghost xv = x@;
        add_binding(&mut conds, &mut bindings, "country_probability >= $", x, Ghost(terms));
        proof { terms = terms.push(("country_probability >= $"@, xv)); }
    }
    assert(terms =~= plan_terms(f));
    assert(bindings@.len() == bindings@.map_values(|b: Binding| b@).len());
    let where_text = if bindings.len() == 0 {
        String::new()
    } else {
        let mut w = String::from_str("WHERE ");
        w.append(conds.as_str());
        w
    };
    assert(where_text@ =~= where_clause(plan_prefixes(terms)));
    (where_text, bindings)
}

/// Plans the count and page queries of a filtered listing.
///
/// The page is at least 1, the page size is clamped to 1..=100 (default
/// 10), and the sort column is taken as given (default `created_at`).
pub fn plan_filtered_query(filters: Filters) -> (res: QueryPlan)
    requires
        offset_fits(filters.page, filters.limit),
    ensures
        res@ == spec_plan(filters@),
        res.data_sql@ == data_sql(
            plan_prefixes(plan_terms(filters@)),
            sort_column(filters@),
            !(filters@.order matches Some(o) && lowercase(o) == "asc"@),
        ),
{
    let ghost f = filters@;
    let limit = clamp_limit(filters.limit);
    let page = clamp_page(filters.page);
    let offset = page_offset(page, limit);
    let (where_text, bindings) = plan_where(&filters);
    let n = bindings.len();

    let mut count = String::from_str("SELECT COUNT(*) FROM profiles ");
    count.append(where_text.as_str());

    let sort_col: String = match filters.sort_by {
        Some(s) => s,
        None => String::from_str("created_at"),
    };
    let descending = match &filters.order {
        Some(o) => {
            let lowered = to_lowercase(o.as_str());
            !str_eq(lowered.as_str(), "asc")
        },
        None => true,
    };
    let mut data = String::from_str(
        "SELECT id, name, gender, gender_probability, age, age_group, country_id, country_name, country_probability, created_at \n         FROM profiles ",
    );
    data.append(where_text.as_str());
    data.append(" ORDER BY ");
    data.append(sort_col.as_str());
    data.append(" ");
    data.append(if descending { "DESC" } else { "ASC" });
    data.append(" LIMIT $");
    push_int(&mut data, (n + 1) as i64);
    data.append(" OFFSET $");
    push_int(&mut data, (n + 2) as i64);

    let plan = QueryPlan {
        count_sql: count,
        data_sql: data,
        bindings,
        sort_column: sort_col,
        page,
        limit,
        offset,
    };
    proof {
        assert(plan@.count_sql =~= spec_plan(f).count_sql);
        assert(plan@.data_sql =~= spec_plan(f).data_sql);
    }
    plan
}

// ---------------------------------------------------------------------------
// Replies
// ---------------------------------------------------------------------------

/// HTTP status of a refused request.
pub const BAD_REQUEST: u16 = 400;

/// HTTP status of a request that failed on the server's side.
pub const INTERNAL_SERVER_ERROR: u16 = 500;

/// An error answer: its HTTP status and the message of its
/// `{"status": "error", "message": ...}` body.
#[derive(Debug)]
pub struct ErrorReply {
    pub status: u16,
    pub message: String,
}

impl ErrorReply {
    /// A 400 answer with `message`.
    pub fn bad_request(message: &str) -> (res: ErrorReply)
        ensures
            res.status == BAD_REQUEST,
            res.message@ == message@,
    {
        ErrorReply { status: BAD_REQUEST, message: String::from_str(message) }
    }

    /// A 500 answer that passes on the message of a failed database call.
    pub fn internal(message: String) -> (res: ErrorReply)
        ensures
            res.status == INTERNAL_SERVER_ERROR,
            res.message@ == message@,
    {
        ErrorReply { status: INTERNAL_SERVER_ERROR, message }
    }
}

// ---------------------------------------------------------------------------
// GET /api/profiles and /api/profiles/search
// ---------------------------------------------------------------------------

/// The request names a sort column that may not be sorted by.
pub open spec fn sort_refused(f: FiltersView) -> bool {
    match f.sort_by {
        Some(s) => !valid_sort_column(s),
        None => false,
    }
}

/// Decides a listing request: refuses an unknown `sort_by` with 400
/// "Invalid sort_by value", and plans the listing otherwise.
///
/// Every plan it gives sorts by a column that may be sorted by.
pub fn profiles_request(filters: Filters) -> (res: Result<QueryPlan, ErrorReply>)
    requires
        !sort_refused(filters@) ==> offset_fits(filters.page, filters.limit),
    ensures
        sort_refused(filters@) <==> res is Err,
        res matches Err(e) ==> e.status == BAD_REQUEST && e.message@ == "Invalid sort_by value"@,
        res matches Ok(plan) ==> plan@ == spec_plan(filters@),
        res matches Ok(plan) ==> valid_sort_column(plan.sort_column@),
{
    let refused = match &filters.sort_by {
        Some(col) => !is_valid_sort_column(col.as_str()),
        None => false,
    };
    if refused {
        return Err(ErrorReply::bad_request("Invalid sort_by value"));
    }
    proof {
        reveal_strlit("created_at");
    }
    Ok(plan_filtered_query(filters))
}

// ---------------------------------------------------------------------------
// GET /api/profiles/query
// ---------------------------------------------------------------------------

/// Query-string parameters of the plain-English search.
#[derive(Debug, Default)]
pub struct NlpQuery {
    pub q: Option<String>,
    pub page: Option<i64>,
    pub limit: Option<i64>,
}

/// The text of the query, empty when none was sent.
pub open spec fn query_text(q: Option<String>) -> Seq<char> {
    match q {
        Some(s) => s@,
        None => Seq::empty(),
    }
}

/// `f` with the page and page size of the request.
pub open spec fn with_paging(f: FiltersView, page: Option<i64>, limit: Option<i64>) -> FiltersView {
    FiltersView { page: page, limit: limit, ..f }
}

/// What `interpret_query` gives for the filters read out of a lower-cased
/// query.
pub open spec fn interpretation(
    parsed: Option<FiltersView>,
    page: Option<i64>,
    limit: Option<i64>,
) -> Option<FiltersView> {
    match parsed {
        Some(f) => Some(with_paging(f, page, limit)),
        None => None,
    }
}

/// The plain-English search keeps everything the query asks for and takes
/// its paging from the request alone: it refuses exactly when nothing was
/// read, and otherwise gives the read filters with the request's page and
/// page size, whatever the query said.
pub proof fn lemma_interpretation_keeps_request_paging(
    parsed: Option<FiltersView>,
    page: Option<i64>,
    limit: Option<i64>,
)
    ensures
        interpretation(parsed, page, limit) is None <==> parsed is None,
        interpretation(parsed, page, limit) matches Some(v) ==> {
            &&& v.page == page
            &&& v.limit == limit
            &&& parsed matches Some(p) && v.gender == p.gender && v.age_group == p.age_group
                && v.country_id == p.country_id && v.min_age == p.min_age && v.max_age == p.max_age
                && v.min_gender_probability == p.min_gender_probability
                && v.min_country_probability == p.min_country_probability
                && v.sort_by == p.sort_by && v.order == p.order
        },
{
}

/// Reads the filters of a plain-English search and puts the page and page
/// size of the request on them; refuses a query in which no word of the
/// vocabulary occurs with 400 "Could not interpret query".
///
/// Filters it gives never name a sort column, so their listing sorts by
/// `created_at`.
pub fn interpret_query(params: &NlpQuery) -> (res: Result<Filters, ErrorReply>)
    ensures
        match res {
            Ok(f) => interpretation(parse_outcome(lowercase(query_text(params.q))), params.page, params.limit) == Some(f@),
            Err(e) => interpretation(parse_outcome(lowercase(query_text(params.q))), params.page, params.limit) is None,
        },
        all_ascii(query_text(params.q)) ==> match res {
            Ok(f) => interpretation(parse_outcome(ascii_lower(query_text(params.q))), params.page, params.limit) == Some(f@),
            Err(e) => interpretation(parse_outcome(ascii_lower(query_text(params.q))), params.page, params.limit) is None,
        },
        res matches Err(e) ==> e.status == BAD_REQUEST && e.message@ == "Could not interpret query"@,
        res matches Ok(f) ==> f.sort_by is None,
        res matches Ok(f) ==> f.page == params.page && f.limit == params.limit,
        res is Err <==> parse_outcome(lowercase(query_text(params.q))) is None,
        res matches Ok(f) ==> parse_outcome(lowercase(query_text(params.q))) == Some(
            FiltersView { page: None, limit: None, ..f@ },
        ),
{
    let q_text: String = match &params.q {
        Some(s) => s.clone(),
        None => String::new(),
    };
    match parse(q_text.as_str()) {
        Some(f) => {
            let filters = Filters { page: params.page, limit: params.limit, ..f };
            Ok(filters)
        },
        None => Err(ErrorReply::bad_request("Could not interpret query")),
    }
}

// ---------------------------------------------------------------------------
// Pagination envelope
// ---------------------------------------------------------------------------

/// The smallest whole number of pages of `limit` rows that hold `total`
/// rows.
pub open spec fn pages_for(total: int, limit: int) -> int {
    if total % limit == 0 {
        total / limit
    } else {
        total / limit + 1
    }
}

/// The `pagination` object of a listing answer.
#[derive(Debug)]
pub struct Pagination {
    pub page: i64,
    pub limit: i64,
    pub total: i64,
    pub total_pages: i64,
}

impl Pagination {
    /// The pagination of a page of a listing, given what the count query
    /// returned; a failed count counts as 0 rows.
    pub fn from_count(page: i64, limit: i64, count: Option<i64>) -> (res: Pagination)
        requires
            limit >= 1,
        ensures
            res.page == page,
            res.limit == limit,
            res.total == match count {
                Some(c) => c,
                None => 0,
            },
            res.total_pages == pages_for(res.total as int, limit as int),
    {
        let total: i64 = match count {
            Some(c) => c,
            None => 0,
        };
        let t = total as i128;
        let l = limit as i128;
        let pages: i128 = if t >= 0 {
            (t + l - 1) / l
        } else {
            0 - (0 - t) / l
        };
        proof {
            lemma_pages_for(t as int, l as int);
        }
        Pagination { page, limit, total, total_pages: pages as i64 }
    }
}

/// The pages of a listing hold every row, and the last page is not empty:
/// `total_pages * limit >= total > (total_pages - 1) * limit` for a
/// positive total, and an empty listing has no pages.
pub proof fn lemma_pages_cover(total: int, limit: int)
    requires
        limit >= 1,
        total >= 0,
    ensures
        pages_for(total, limit) * limit >= total,
        total > 0 ==> (pages_for(total, limit) - 1) * limit < total,
        total == 0 ==> pages_for(total, limit) == 0,
{
    vstd::arithmetic::div_mod::lemma_fundamental_div_mod(total, limit);
    let q = total / limit;
    let r = total % limit;
    assert(0 <= r < limit);
    if r == 0 {
        assert(pages_for(total, limit) * limit == total) by (nonlinear_arith)
            requires total == limit * q, pages_for(total, limit) == q;
        assert(total > 0 ==> (pages_for(total, limit) - 1) * limit < total) by (nonlinear_arith)
            requires total == limit * q, pages_for(total, limit) == q, limit >= 1;
        assert(total == 0 ==> q == 0) by (nonlinear_arith)
            requires total == limit * q, limit >= 1;
    } else {
        assert(pages_for(total, limit) * limit >= total) by (nonlinear_arith)
            requires total == limit * q + r, pages_for(total, limit) == q + 1, r < limit;
        assert((pages_for(total, limit) - 1) * limit < total) by (nonlinear_arith)
            requires total == limit * q + r, pages_for(total, limit) == q + 1, r > 0;
    }
}

/// Both queries of a listing take the same bindings, one for each of its
/// conditions, and the page query two more (page size and offset), whose
/// placeholders follow those of the conditions.
pub proof fn lemma_plan_placeholders(f: FiltersView)
    ensures
        spec_plan(f).bindings.len() == plan_terms(f).len(),
        spec_plan(f).data_sql == data_sql(plan_prefixes(plan_terms(f)), sort_column(f), plan_descending(f)),
        plan_prefixes(plan_terms(f)).len() == spec_plan(f).bindings.len(),
        spec_plan(f).bindings.len() <= 7,
{
    assert(plan_terms(f).len() <= 7);
}

/// The same filters are present in `f` and `g`.
pub open spec fn same_filters_present(f: FiltersView, g: FiltersView) -> bool {
    &&& (f.gender is Some <==> g.gender is Some)
    &&& (f.country_id is Some <==> g.country_id is Some)
    &&& (f.age_group is Some <==> g.age_group is Some)
    &&& (f.min_age is Some <==> g.min_age is Some)
    &&& (f.max_age is Some <==> g.max_age is Some)
    &&& (f.min_gender_probability is Some <==> g.min_gender_probability is Some)
    &&& (f.min_country_probability is Some <==> g.min_country_probability is Some)
}

/// No filter value reaches the SQL text: two requests with the same filters
/// present, the same sort column and the same direction run the same two
/// queries, and differ only in what is bound to the placeholders.
pub proof fn lemma_sql_text_ignores_filter_values(f: FiltersView, g: FiltersView)
    requires
        same_filters_present(f, g),
        sort_column(f) == sort_column(g),
        plan_descending(f) == plan_descending(g),
    ensures
        spec_plan(f).count_sql == spec_plan(g).count_sql,
        spec_plan(f).data_sql == spec_plan(g).data_sql,
{
    lemma_plan_prefixes_by_presence(f);
    lemma_plan_prefixes_by_presence(g);
}

/// The condition texts present when `present`.
pub open spec fn present_prefix(present: bool, prefix: Seq<char>) -> Seq<Seq<char>> {
    if present {
        seq![prefix]
    } else {
        Seq::empty()
    }
}

/// The condition texts of a listing, from which filters are present alone.
pub open spec fn prefixes_by_presence(f: FiltersView) -> Seq<Seq<char>> {
    present_prefix(f.gender is Some, "LOWER(gender) = $"@)
        + present_prefix(f.country_id is Some, "UPPER(country_id) = $"@)
        + present_prefix(f.age_group is Some, "LOWER(age_group) = $"@)
        + present_prefix(f.min_age is Some, "age >= $"@)
        + present_prefix(f.max_age is Some, "age <= $"@)
        + present_prefix(f.min_gender_probability is Some, "gender_probability >= $"@)
        + present_prefix(f.min_country_probability is Some, "country_probability >= $"@)
}

proof fn lemma_prefixes_concat(a: Seq<PlanTerm>, b: Seq<PlanTerm>)
    ensures
        plan_prefixes(a + b) == plan_prefixes(a) + plan_prefixes(b),
{
    assert(plan_prefixes(a + b) =~= plan_prefixes(a) + plan_prefixes(b));
}

proof fn lemma_plan_prefixes_by_presence(f: FiltersView)
    ensures
        plan_prefixes(plan_terms(f)) == prefixes_by_presence(f),
{
    let t1 = text_term(map_opt(f.gender, |s: Seq<char>| lowercase(s)), "LOWER(gender) = $"@);
    let t2 = text_term(map_opt(f.country_id, |s: Seq<char>| uppercase(s)), "UPPER(country_id) = $"@);
    let t3 = text_term(map_opt(f.age_group, |s: Seq<char>| lowercase(s)), "LOWER(age_group) = $"@);
    let t4 = int_term(f.min_age, "age >= $"@);
    let t5 = int_term(f.max_age, "age <= $"@);
    let t6 = decimal_term(f.min_gender_probability, "gender_probability >= $"@);
    let t7 = decimal_term(f.min_country_probability, "country_probability >= $"@);
    assert(plan_prefixes(t1) =~= present_prefix(f.gender is Some, "LOWER(gender) = $"@));
    assert(plan_prefixes(t2) =~= present_prefix(f.country_id is Some, "UPPER(country_id) = $"@));
    assert(plan_prefixes(t3) =~= present_prefix(f.age_group is Some, "LOWER(age_group) = $"@));
    assert(plan_prefixes(t4) =~= present_prefix(f.min_age is Some, "age >= $"@));
    assert(plan_prefixes(t5) =~= present_prefix(f.max_age is Some, "age <= $"@));
    assert(plan_prefixes(t6) =~= present_prefix(f.min_gender_probability is Some, "gender_probability >= $"@));
    assert(plan_prefixes(t7) =~= present_prefix(f.min_country_probability is Some, "country_probability >= $"@));
    lemma_prefixes_concat(t1, t2);
    lemma_prefixes_concat(t1 + t2, t3);
    lemma_prefixes_concat(t1 + t2 + t3, t4);
    lemma_prefixes_concat(t1 + t2 + t3 + t4, t5);
    lemma_prefixes_concat(t1 + t2 + t3 + t4 + t5, t6);
    lemma_prefixes_concat(t1 + t2 + t3 + t4 + t5 + t6, t7);
}

/// The listing sorts ascending exactly when the order asked for is `asc` in
/// any case; with no order, or any other (such as `desc`), it sorts
/// descending. The two directions give different queries.
pub proof fn lemma_listing_direction(f: FiltersView)
    ensures
        (f.order is None || (f.order matches Some(o) && lowercase(o) != "asc"@))
            ==> spec_plan(f).data_sql == data_sql(plan_prefixes(plan_terms(f)), sort_column(f), true),
        (f.order matches Some(o) && lowercase(o) == "asc"@)
            ==> spec_plan(f).data_sql == data_sql(plan_prefixes(plan_terms(f)), sort_column(f), false),
        data_sql(plan_prefixes(plan_terms(f)), sort_column(f), true).len()
            == data_sql(plan_prefixes(plan_terms(f)), sort_column(f), false).len() + 1,
{
    reveal_strlit("DESC");
    reveal_strlit("ASC");
}

/// A listing whose filters name no sort column sorts by `created_at`, a
/// column that may be sorted by; so does every listing of a plain-English
/// search.
pub proof fn lemma_default_sort_column(f: FiltersView)
    requires
        f.sort_by is None,
    ensures
        spec_plan(f).sort_column == "created_at"@,
        valid_sort_column(spec_plan(f).sort_column),
{
}

proof fn lemma_pages_for(t: int, l: int)
    requires
        l >= 1,
        i64::MIN <= t <= i64::MAX,
    ensures
        t >= 0 ==> pages_for(t, l) == (t + l - 1) / l,
        t < 0 ==> pages_for(t, l) == 0 - (0 - t) / l,
        i64::MIN <= pages_for(t, l) <= i64::MAX,
{
    assert(0 <= t % l < l);
    vstd::arithmetic::div_mod::lemma_fundamental_div_mod(t, l);
    if t >= 0 {
        assert((t + l - 1) / l == pages_for(t, l)) by (nonlinear_arith)
            requires l >= 1, t >= 0, 0 <= t % l < l, t == l * (t / l) + t % l,
                pages_for(t, l) == if t % l == 0 { t / l } else { t / l + 1 };
        assert(0 <= pages_for(t, l) <= t) by (nonlinear_arith)
            requires l >= 1, t >= 0, pages_for(t, l) == (t + l - 1) / l;
    } else {
        let m = 0 - t;
        assert(0 - m / l == pages_for(t, l)) by (nonlinear_arith)
            requires l >= 1, m > 0, t == 0 - m, 0 <= t % l < l, t == l * (t / l) + t % l,
                pages_for(t, l) == if t % l == 0 { t / l } else { t / l + 1 };
        assert(0 <= m / l <= m) by (nonlinear_arith)
            requires l >= 1, m > 0;
    }
}

} // verus!
