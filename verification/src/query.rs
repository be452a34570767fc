//! The query builder: accumulates filter, selection, ordering and
//! pagination state for one relation and renders it, on demand and
//! deterministically, into one concrete HTTP request.

use vstd::prelude::*;
use crate::error::ClientError;
use crate::headers::{hget, hset, HeaderSet, HeaderView};
use crate::text::{
    dec_str, int_str, is_ident, join_sep, join_strings, lemma_views_of_push, pct_encode,
    percent_encode, push_char, s_append, u64_to_string, i64_to_string, views_of,
};
use vstd::string::StringExecFns;

verus! {

// ---------------------------------------------------------------------------
// Filter grammar
// ---------------------------------------------------------------------------

/// The fixed set of filter operators.
#[derive(Clone, Copy, PartialEq, Eq, Structural, Debug)]
pub enum FilterOp {
    Eq,
    Neq,
    Gt,
    Gte,
    Lt,
    Lte,
    Like,
    Ilike,
    Is,
    In,
    Contains,
}

/// The operator's token in the query string.
pub open spec fn op_token(op: FilterOp) -> Seq<char> {
    match op {
        FilterOp::Eq => "eq"@,
        FilterOp::Neq => "neq"@,
        FilterOp::Gt => "gt"@,
        FilterOp::Gte => "gte"@,
        FilterOp::Lt => "lt"@,
        FilterOp::Lte => "lte"@,
        FilterOp::Like => "like"@,
        FilterOp::Ilike => "ilike"@,
        FilterOp::Is => "is"@,
        FilterOp::In => "in"@,
        FilterOp::Contains => "cs"@,
    }
}

impl FilterOp {
    /// The operator's token in the query string.
    pub fn token(self) -> (r: &'static str)
        ensures
            r@ == op_token(self),
    {
        match self {
            FilterOp::Eq => "eq",
            FilterOp::Neq => "neq",
            FilterOp::Gt => "gt",
            FilterOp::Gte => "gte",
            FilterOp::Lt => "lt",
            FilterOp::Lte => "lte",
            FilterOp::Like => "like",
            FilterOp::Ilike => "ilike",
            FilterOp::Is => "is",
            FilterOp::In => "in",
            FilterOp::Contains => "cs",
        }
    }
}

/// A typed scalar in a filter clause.
#[derive(Debug)]
pub enum Value {
    Bool(bool),
    Int(i64),
    Text(String),
}

/// The raw text of a scalar, before percent-encoding.
pub open spec fn value_text(v: Value) -> Seq<char> {
    match v {
        Value::Bool(b) => if b {
            "true"@
        } else {
            "false"@
        },
        Value::Int(i) => int_str(i as int),
        Value::Text(s) => s@,
    }
}

/// The views of a list of scalars, each percent-encoded.
pub open spec fn encoded_values(vs: Seq<Value>) -> Seq<Seq<char>> {
    vs.map_values(|v: Value| pct_encode(value_text(v)))
}

broadcast proof fn lemma_encoded_values_push(vs: Seq<Value>, v: Value)
    ensures
        #[trigger] encoded_values(vs.push(v)) == encoded_values(vs).push(
            pct_encode(value_text(v)),
        ),
{
    assert(encoded_values(vs.push(v)) =~= encoded_values(vs).push(pct_encode(value_text(v))));
}

/// The value side of a clause: one scalar or a parenthesised list.
#[derive(Debug)]
pub enum ClauseValue {
    Scalar(Value),
    List(Vec<Value>),
}

/// The delimiters of a rendered list: braces for containment, parentheses
/// otherwise.
pub open spec fn list_open(op: FilterOp) -> char {
    if op is Contains {
        '{'
    } else {
        '('
    }
}

pub open spec fn list_close(op: FilterOp) -> char {
    if op is Contains {
        '}'
    } else {
        ')'
    }
}

/// The rendered value side of one clause.
pub open spec fn clause_value_text(op: FilterOp, cv: ClauseValue) -> Seq<char> {
    match cv {
        ClauseValue::Scalar(v) => pct_encode(value_text(v)),
        ClauseValue::List(vs) => seq![list_open(op)] + join_sep(encoded_values(vs@), ',')
            + seq![list_close(op)],
    }
}

/// One accumulated constraint: a column/operator/value condition, or a raw
/// sub-expression whose alternatives combine with OR.
#[derive(Debug)]
pub enum FilterClause {
    Cond { column: String, op: FilterOp, value: ClauseValue },
    OrGroup { expr: String },
}

/// The rendered text of one clause in the query string.
pub open spec fn clause_text(c: FilterClause) -> Seq<char> {
    match c {
        FilterClause::Cond { column, op, value } => column@ + seq!['='] + op_token(op)
            + seq!['.'] + clause_value_text(op, value),
        FilterClause::OrGroup { expr } => "or=("@ + expr@ + seq![')'],
    }
}

/// The rendered texts of a sequence of clauses.
pub open spec fn clause_texts(cs: Seq<FilterClause>) -> Seq<Seq<char>> {
    cs.map_values(|c: FilterClause| clause_text(c))
}

broadcast proof fn lemma_clause_texts_push(cs: Seq<FilterClause>, c: FilterClause)
    ensures
        #[trigger] clause_texts(cs.push(c)) == clause_texts(cs).push(clause_text(c)),
{
    assert(clause_texts(cs.push(c)) =~= clause_texts(cs).push(clause_text(c)));
}

// ---------------------------------------------------------------------------
// Ordering
// ---------------------------------------------------------------------------

/// One ordering key.
#[derive(Debug)]
pub struct OrderTerm {
    pub column: String,
    pub ascending: bool,
    pub nulls_first: Option<bool>,
}

/// The rendered text of one ordering key.
pub open spec fn order_text(t: OrderTerm) -> Seq<char> {
    t.column@ + (if t.ascending {
        ".asc"@
    } else {
        ".desc"@
    }) + (match t.nulls_first {
        Some(true) => ".nullsfirst"@,
        Some(false) => ".nullslast"@,
        None => Seq::<char>::empty(),
    })
}

/// The rendered texts of a sequence of ordering keys.
pub open spec fn order_texts(ts: Seq<OrderTerm>) -> Seq<Seq<char>> {
    ts.map_values(|t: OrderTerm| order_text(t))
}

broadcast proof fn lemma_order_texts_push(ts: Seq<OrderTerm>, t: OrderTerm)
    ensures
        #[trigger] order_texts(ts.push(t)) == order_texts(ts).push(order_text(t)),
{
    assert(order_texts(ts.push(t)) =~= order_texts(ts).push(order_text(t)));
}

// ---------------------------------------------------------------------------
// Counting, method, request
// ---------------------------------------------------------------------------

/// How the server is asked to count matching rows.
#[derive(Clone, Copy, PartialEq, Eq, Structural, Debug)]
pub enum CountKind {
    Exact,
    Planned,
    Estimated,
}

/// The count kind's token in the `Prefer` header.
pub open spec fn count_token(k: CountKind) -> Seq<char> {
    match k {
        CountKind::Exact => "exact"@,
        CountKind::Planned => "planned"@,
        CountKind::Estimated => "estimated"@,
    }
}

impl CountKind {
    /// The count kind's token in the `Prefer` header.
    pub fn token(self) -> (r: &'static str)
        ensures
            r@ == count_token(self),
    {
        match self {
            CountKind::Exact => "exact",
            CountKind::Planned => "planned",
            CountKind::Estimated => "estimated",
        }
    }
}

/// The HTTP method of a rendered request.
#[derive(Clone, Copy, PartialEq, Eq, Structural, Debug)]
pub enum Method {
    Get,
    Head,
    Post,
    Patch,
    Delete,
}

/// The method's wire name.
pub open spec fn method_token(m: Method) -> Seq<char> {
    match m {
        Method::Get => "GET"@,
        Method::Head => "HEAD"@,
        Method::Post => "POST"@,
        Method::Patch => "PATCH"@,
        Method::Delete => "DELETE"@,
    }
}

impl Method {
    /// The method's wire name.
    pub fn token(self) -> (r: &'static str)
        ensures
            r@ == method_token(self),
    {
        match self {
            Method::Get => "GET",
            Method::Head => "HEAD",
            Method::Post => "POST",
            Method::Patch => "PATCH",
            Method::Delete => "DELETE",
        }
    }
}

/// One fully rendered HTTP request, ready for a transport to issue.
#[derive(Debug)]
pub struct Request {
    pub method: Method,
    pub url: String,
    pub headers: HeaderSet,
    pub body: Option<String>,
    /// Whether the response is expected to hold exactly one row.
    pub expect_single: bool,
}

// ---------------------------------------------------------------------------
// The builder
// ---------------------------------------------------------------------------

/// Accumulates one query against one relation and renders it on demand.
/// The relation and base URL are fixed at construction; the query state
/// grows monotonically until a terminal render consumes the builder's
/// snapshot.
#[derive(Debug)]
pub struct PostgrestQueryBuilder {
    pub relation: String,
    pub schema: String,
    pub base_url: String,
    pub headers: HeaderSet,
    pub select_cols: Option<Vec<String>>,
    pub filters: Vec<FilterClause>,
    pub orderings: Vec<OrderTerm>,
    pub row_range: Option<(u64, u64)>,
    pub single_row: bool,
    pub count: Option<CountKind>,
    pub head_only: bool,
}

impl PostgrestQueryBuilder {
    /// A fresh builder: no selection, no filters, no ordering, no range,
    /// plural rows, GET.
    pub fn new(relation: String, schema: String, base_url: String, headers: HeaderSet) -> (r:
        Self)
        requires
            is_ident(relation@),
            is_ident(schema@),
        ensures
            r.relation == relation,
            r.schema == schema,
            r.base_url == base_url,
            r.headers == headers,
            r.select_cols is None,
            r.filters@ == Seq::<FilterClause>::empty(),
            r.orderings@ == Seq::<OrderTerm>::empty(),
            r.row_range is None,
            !r.single_row,
            r.count is None,
            !r.head_only,
    {
        let r = PostgrestQueryBuilder {
            relation,
            schema,
            base_url,
            headers,
            select_cols: None,
            filters: Vec::new(),
            orderings: Vec::new(),
            row_range: None,
            single_row: false,
            count: None,
            head_only: false,
        };
        proof {
            assert(r.filters@ =~= Seq::<FilterClause>::empty());
            assert(r.orderings@ =~= Seq::<OrderTerm>::empty());
        }
        r
    }

    // -- spec-level state transitions --------------------------------------

    pub open spec fn with_select(self, columns: Vec<String>) -> Self {
        Self { select_cols: Some(columns), ..self }
    }

    pub open spec fn with_range(self, from: u64, to: u64) -> Self {
        Self { row_range: Some((from, to)), ..self }
    }

    pub open spec fn with_single(self) -> Self {
        Self { single_row: true, ..self }
    }

    pub open spec fn with_count(self, kind: CountKind) -> Self {
        Self { count: Some(kind), ..self }
    }

    pub open spec fn with_head(self) -> Self {
        Self { head_only: true, ..self }
    }

    /// `r` is `self` with `c` appended to the filters and nothing else
    /// changed.
    pub open spec fn appends_clause(self, r: Self, c: FilterClause) -> bool {
        &&& r.filters@ == self.filters@.push(c)
        &&& r.relation == self.relation
        &&& r.schema == self.schema
        &&& r.base_url == self.base_url
        &&& r.headers == self.headers
        &&& r.select_cols == self.select_cols
        &&& r.orderings == self.orderings
        &&& r.row_range == self.row_range
        &&& r.single_row == self.single_row
        &&& r.count == self.count
        &&& r.head_only == self.head_only
    }

    /// `r` is `self` with `t` appended to the ordering keys and nothing
    /// else changed.
    pub open spec fn appends_order(self, r: Self, t: OrderTerm) -> bool {
        &&& r.orderings@ == self.orderings@.push(t)
        &&& r.relation == self.relation
        &&& r.schema == self.schema
        &&& r.base_url == self.base_url
        &&& r.headers == self.headers
        &&& r.select_cols == self.select_cols
        &&& r.filters == self.filters
        &&& r.row_range == self.row_range
        &&& r.single_row == self.single_row
        &&& r.count == self.count
        &&& r.head_only == self.head_only
    }

    // -- builder operations -------------------------------------------------

    /// Sets the selected columns. A repeated call overwrites the earlier
    /// selection: the last one wins.
    pub fn select(self, columns: Vec<String>) -> (r: Self)
        requires
            forall|i: int| 0 <= i < columns@.len() ==> is_ident(#[trigger] columns@[i]@),
        ensures
            r == self.with_select(columns),
    {
        Self { select_cols: Some(columns), ..self }
    }

    /// Appends one column/operator/value condition; conditions combine
    /// with AND.
    pub fn filter(self, column: String, op: FilterOp, value: Value) -> (r: Self)
        requires
            is_ident(column@),
        ensures
            self.appends_clause(
                r,
                FilterClause::Cond { column, op, value: ClauseValue::Scalar(value) },
            ),
    {
        let mut filters = self.filters;
        filters.push(FilterClause::Cond { column, op, value: ClauseValue::Scalar(value) });
        Self { filters, ..self }
    }

    /// Appends one column/operator/list condition.
    pub fn filter_list(self, column: String, op: FilterOp, values: Vec<Value>) -> (r: Self)
        requires
            is_ident(column@),
        ensures
            self.appends_clause(
                r,
                FilterClause::Cond { column, op, value: ClauseValue::List(values) },
            ),
    {
        let mut filters = self.filters;
        filters.push(FilterClause::Cond { column, op, value: ClauseValue::List(values) });
        Self { filters, ..self }
    }

    /// Appends a raw sub-expression whose alternatives combine with OR.
    pub fn or_group(self, expr: String) -> (r: Self)
        ensures
            self.appends_clause(r, FilterClause::OrGroup { expr }),
    {
        let mut filters = self.filters;
        filters.push(FilterClause::OrGroup { expr });
        Self { filters, ..self }
    }

    /// Equality condition.
    pub fn eq(self, column: String, value: Value) -> (r: Self)
        requires
            is_ident(column@),
        ensures
            self.appends_clause(
                r,
                FilterClause::Cond { column, op: FilterOp::Eq, value: ClauseValue::Scalar(value) },
            ),
    {
        self.filter(column, FilterOp::Eq, value)
    }

    /// Inequality condition.
    pub fn neq(self, column: String, value: Value) -> (r: Self)
        requires
            is_ident(column@),
        ensures
            self.appends_clause(
                r,
                FilterClause::Cond {
                    column,
                    op: FilterOp::Neq,
                    value: ClauseValue::Scalar(value),
                },
            ),
    {
        self.filter(column, FilterOp::Neq, value)
    }

    /// Greater-than condition.
    pub fn gt(self, column: String, value: Value) -> (r: Self)
        requires
            is_ident(column@),
        ensures
            self.appends_clause(
                r,
                FilterClause::Cond { column, op: FilterOp::Gt, value: ClauseValue::Scalar(value) },
            ),
    {
        self.filter(column, FilterOp::Gt, value)
    }

    /// Greater-or-equal condition.
    pub fn gte(self, column: String, value: Value) -> (r: Self)
        requires
            is_ident(column@),
        ensures
            self.appends_clause(
                r,
                FilterClause::Cond {
                    column,
                    op: FilterOp::Gte,
                    value: ClauseValue::Scalar(value),
                },
            ),
    {
        self.filter(column, FilterOp::Gte, value)
    }

    /// Less-than condition.
    pub fn lt(self, column: String, value: Value) -> (r: Self)
        requires
            is_ident(column@),
        ensures
            self.appends_clause(
                r,
                FilterClause::Cond { column, op: FilterOp::Lt, value: ClauseValue::Scalar(value) },
            ),
    {
        self.filter(column, FilterOp::Lt, value)
    }

    /// Less-or-equal condition.
    pub fn lte(self, column: String, value: Value) -> (r: Self)
        requires
            is_ident(column@),
        ensures
            self.appends_clause(
                r,
                FilterClause::Cond {
                    column,
                    op: FilterOp::Lte,
                    value: ClauseValue::Scalar(value),
                },
            ),
    {
        self.filter(column, FilterOp::Lte, value)
    }

    /// Pattern-match condition.
    pub fn like(self, column: String, value: Value) -> (r: Self)
        requires
            is_ident(column@),
        ensures
            self.appends_clause(
                r,
                FilterClause::Cond {
                    column,
                    op: FilterOp::Like,
                    value: ClauseValue::Scalar(value),
                },
            ),
    {
        self.filter(column, FilterOp::Like, value)
    }

    /// Case-insensitive pattern-match condition.
    pub fn ilike(self, column: String, value: Value) -> (r: Self)
        requires
            is_ident(column@),
        ensures
            self.appends_clause(
                r,
                FilterClause::Cond {
                    column,
                    op: FilterOp::Ilike,
                    value: ClauseValue::Scalar(value),
                },
            ),
    {
        self.filter(column, FilterOp::Ilike, value)
    }

    /// IS condition (for null and boolean checks).
    pub fn is_(self, column: String, value: Value) -> (r: Self)
        requires
            is_ident(column@),
        ensures
            self.appends_clause(
                r,
                FilterClause::Cond { column, op: FilterOp::Is, value: ClauseValue::Scalar(value) },
            ),
    {
        self.filter(column, FilterOp::Is, value)
    }

    /// Membership condition over a list of scalars.
    pub fn in_(self, column: String, values: Vec<Value>) -> (r: Self)
        requires
            is_ident(column@),
        ensures
            self.appends_clause(
                r,
                FilterClause::Cond { column, op: FilterOp::In, value: ClauseValue::List(values) },
            ),
    {
        self.filter_list(column, FilterOp::In, values)
    }

    /// Containment condition over a list of scalars.
    pub fn contains(self, column: String, values: Vec<Value>) -> (r: Self)
        requires
            is_ident(column@),
        ensures
            self.appends_clause(
                r,
                FilterClause::Cond {
                    column,
                    op: FilterOp::Contains,
                    value: ClauseValue::List(values),
                },
            ),
    {
        self.filter_list(column, FilterOp::Contains, values)
    }

    /// Appends an ascending ordering key.
    pub fn order(self, column: String) -> (r: Self)
        requires
            is_ident(column@),
        ensures
            self.appends_order(r, OrderTerm { column, ascending: true, nulls_first: None }),
    {
        let mut orderings = self.orderings;
        orderings.push(OrderTerm { column, ascending: true, nulls_first: None });
        Self { orderings, ..self }
    }

    /// Appends an ordering key with an explicit direction and null
    /// placement.
    pub fn order_with(self, column: String, ascending: bool, nulls_first: Option<bool>) -> (r:
        Self)
        requires
            is_ident(column@),
        ensures
            self.appends_order(r, OrderTerm { column, ascending, nulls_first }),
    {
        let mut orderings = self.orderings;
        orderings.push(OrderTerm { column, ascending, nulls_first });
        Self { orderings, ..self }
    }

    /// Sets the row window. `from` must not exceed `to`; the mistake is
    /// reported at this call, before any request exists.
    pub fn range(self, from: u64, to: u64) -> (r: Result<Self, ClientError>)
        ensures
            r is Ok <==> from <= to,
            r is Ok ==> r->Ok_0 == self.with_range(from, to),
            r is Err ==> r->Err_0 is InvalidRange,
    {
        if from > to {
            Err(ClientError::InvalidRange)
        } else {
            Ok(Self { row_range: Some((from, to)), ..self })
        }
    }

    /// Marks the request as expecting exactly one row.
    pub fn single(self) -> (r: Self)
        ensures
            r == self.with_single(),
    {
        Self { single_row: true, ..self }
    }

    /// Asks the server to count matching rows.
    pub fn count(self, kind: CountKind) -> (r: Self)
        ensures
            r == self.with_count(kind),
    {
        Self { count: Some(kind), ..self }
    }

    /// Renders a HEAD request instead of GET: headers only, no body.
    pub fn head(self) -> (r: Self)
        ensures
            r == self.with_head(),
    {
        Self { head_only: true, ..self }
    }

    // -- rendering: the specification ---------------------------------------

    /// The `select=` part, where a selection was made.
    pub open spec fn select_part(self) -> Seq<Seq<char>> {
        match self.select_cols {
            Some(cols) => seq!["select="@ + join_sep(views_of(cols@), ',')],
            None => Seq::<Seq<char>>::empty(),
        }
    }

    /// The `order=` part, where ordering keys were given.
    pub open spec fn order_part(self) -> Seq<Seq<char>> {
        if self.orderings@.len() == 0 {
            Seq::<Seq<char>>::empty()
        } else {
            seq!["order="@ + join_sep(order_texts(self.orderings@), ',')]
        }
    }

    /// Every `key=value` part of the query string, in render order:
    /// selection, then filters in call order, then ordering.
    pub open spec fn query_parts(self) -> Seq<Seq<char>> {
        self.select_part() + clause_texts(self.filters@) + self.order_part()
    }

    /// The query string: empty, or `?` followed by the parts joined
    /// with `&`.
    pub open spec fn query_string(self) -> Seq<char> {
        if self.query_parts().len() == 0 {
            Seq::<char>::empty()
        } else {
            seq!['?'] + join_sep(self.query_parts(), '&')
        }
    }

    /// The full request URL: base, `/`, relation, query string.
    pub open spec fn rendered_url(self) -> Seq<char> {
        self.base_url@ + seq!['/'] + self.relation@ + self.query_string()
    }

    /// The `Range` header value for a row window.
    pub open spec fn range_header(from: u64, to: u64) -> Seq<char> {
        dec_str(from as nat) + seq!['-'] + dec_str(to as nat)
    }

    /// The parts of the `Prefer` header: the count request, then whatever
    /// the terminal operation adds.
    pub open spec fn prefer_parts(self, extra: Seq<Seq<char>>) -> Seq<Seq<char>> {
        (match self.count {
            Some(k) => seq!["count="@ + count_token(k)],
            None => Seq::<Seq<char>>::empty(),
        }) + extra
    }

    /// The headers of a rendered request: the builder's snapshot, then
    /// `Accept-Profile` for a non-default schema, `Range` for a row
    /// window, the single-row `Accept` variant, and `Prefer`.
    pub open spec fn rendered_headers(self, extra_prefer: Seq<Seq<char>>) -> HeaderView {
        let h0 = self.headers.view_of();
        let h1 = if self.schema@ == "public"@ {
            h0
        } else {
            hset(h0, "Accept-Profile"@, self.schema@)
        };
        let h2 = match self.row_range {
            Some((f, t)) => hset(h1, "Range"@, Self::range_header(f, t)),
            None => h1,
        };
        let h3 = if self.single_row {
            hset(h2, "Accept"@, "application/vnd.pgrst.object+json"@)
        } else {
            h2
        };
        let pp = self.prefer_parts(extra_prefer);
        if pp.len() == 0 {
            h3
        } else {
            hset(h3, "Prefer"@, join_sep(pp, ','))
        }
    }

    // -- rendering: the implementation --------------------------------------

    /// Renders the accumulated read query: GET (or HEAD), the URL with its
    /// query string, the headers, no body.
    pub fn render(self) -> (r: Request)
        ensures
            r.method == if self.head_only {
                Method::Head
            } else {
                Method::Get
            },
            r.url@ == self.rendered_url(),
            r.headers.view_of() == self.rendered_headers(Seq::<Seq<char>>::empty()),
            r.body is None,
            r.expect_single == self.single_row,
    {
        let method = if self.head_only {
            Method::Head
        } else {
            Method::Get
        };
        let extra: Vec<String> = Vec::new();
        proof {
            assert(views_of(extra@) =~= Seq::<Seq<char>>::empty());
        }
        self.build_request(method, None, extra)
    }

    /// Renders an insertion: POST with the payload as body and
    /// `Prefer: return=representation`.
    pub fn insert(self, payload: String) -> (r: Request)
        ensures
            r.method == Method::Post,
            r.url@ == self.rendered_url(),
            r.headers.view_of() == self.rendered_headers(seq!["return=representation"@]),
            r.body == Some(payload),
            r.expect_single == self.single_row,
    {
        let mut extra: Vec<String> = Vec::new();
        extra.push("return=representation".to_owned());
        proof {
            assert(views_of(extra@) =~= seq!["return=representation"@]);
        }
        self.build_request(Method::Post, Some(payload), extra)
    }

    /// Renders an upsert: POST with the payload as body and merge
    /// resolution for duplicates.
    pub fn upsert(self, payload: String) -> (r: Request)
        ensures
            r.method == Method::Post,
            r.url@ == self.rendered_url(),
            r.headers.view_of() == self.rendered_headers(
                seq!["return=representation"@, "resolution=merge-duplicates"@],
            ),
            r.body == Some(payload),
            r.expect_single == self.single_row,
    {
        let mut extra: Vec<String> = Vec::new();
        extra.push("return=representation".to_owned());
        extra.push("resolution=merge-duplicates".to_owned());
        proof {
            assert(views_of(extra@) =~= seq![
                "return=representation"@,
                "resolution=merge-duplicates"@,
            ]);
        }
        self.build_request(Method::Post, Some(payload), extra)
    }

    /// Renders an update of the rows the filters select: PATCH with the
    /// payload as body.
    pub fn update(self, payload: String) -> (r: Request)
        ensures
            r.method == Method::Patch,
            r.url@ == self.rendered_url(),
            r.headers.view_of() == self.rendered_headers(seq!["return=representation"@]),
            r.body == Some(payload),
            r.expect_single == self.single_row,
    {
        let mut extra: Vec<String> = Vec::new();
        extra.push("return=representation".to_owned());
        proof {
            assert(views_of(extra@) =~= seq!["return=representation"@]);
        }
        self.build_request(Method::Patch, Some(payload), extra)
    }

    /// Renders a deletion of the rows the filters select.
    pub fn delete(self) -> (r: Request)
        ensures
            r.method == Method::Delete,
            r.url@ == self.rendered_url(),
            r.headers.view_of() == self.rendered_headers(seq!["return=representation"@]),
            r.body is None,
            r.expect_single == self.single_row,
    {
        let mut extra: Vec<String> = Vec::new();
        extra.push("return=representation".to_owned());
        proof {
            assert(views_of(extra@) =~= seq!["return=representation"@]);
        }
        self.build_request(Method::Delete, None, extra)
    }

    /// Two builders read the same: same URL pieces, same header snapshot,
    /// same accumulated query state, whatever objects hold them.
    pub open spec fn same_rendering_state(self, other: Self) -> bool {
        &&& self.base_url@ == other.base_url@
        &&& self.relation@ == other.relation@
        &&& self.schema@ == other.schema@
        &&& self.headers.view_of() == other.headers.view_of()
        &&& (match (self.select_cols, other.select_cols) {
            (Option::None, Option::None) => true,
            (Option::Some(a), Option::Some(b)) => views_of(a@) == views_of(b@),
            _ => false,
        })
        &&& clause_texts(self.filters@) == clause_texts(other.filters@)
        &&& order_texts(self.orderings@) == order_texts(other.orderings@)
        &&& self.row_range == other.row_range
        &&& self.single_row == other.single_row
        &&& self.count == other.count
        &&& self.head_only == other.head_only
    }

    /// Rendering is deterministic: two builders whose accumulated state
    /// reads the same - in particular two independently constructed but
    /// identically chained ones - render byte-identical URLs and identical
    /// header sets.
    pub proof fn lemma_render_deterministic(self, other: Self, extra_prefer: Seq<Seq<char>>)
        requires
            self.same_rendering_state(other),
        ensures
            self.rendered_url() == other.rendered_url(),
            self.rendered_headers(extra_prefer) == other.rendered_headers(extra_prefer),
    {
        match (self.select_cols, other.select_cols) {
            (Option::Some(a), Option::Some(b)) => {
                assert(self.select_part() == other.select_part());
            },
            _ => {
                assert(self.select_part() == other.select_part());
            },
        }
        assert(self.orderings@.len() == order_texts(self.orderings@).len());
        assert(other.orderings@.len() == order_texts(other.orderings@).len());
        assert(self.order_part() == other.order_part());
        assert(self.query_parts() == other.query_parts());
        assert(self.rendered_url() == other.rendered_url());
        assert(self.rendered_headers(extra_prefer) == other.rendered_headers(extra_prefer));
    }

    /// A set row window always reaches the rendered request: its `Range`
    /// header reads exactly `from-to`, whatever else the builder holds and
    /// whatever the terminal operation adds.
    pub proof fn lemma_range_header_rendered(self, extra_prefer: Seq<Seq<char>>, from: u64, to: u64)
        requires
            self.row_range == Some((from, to)),
        ensures
            hget(self.rendered_headers(extra_prefer), "Range"@) == Some(
                Self::range_header(from, to),
            ),
    {
        reveal_strlit("Range");
        reveal_strlit("Accept");
        reveal_strlit("Prefer");
        let h0 = self.headers.view_of();
        let h1 = if self.schema@ == "public"@ {
            h0
        } else {
            hset(h0, "Accept-Profile"@, self.schema@)
        };
        let rv = Self::range_header(from, to);
        let h2 = hset(h1, "Range"@, rv);
        crate::headers::lemma_hset_hget(h1, "Range"@, rv, "Range"@);
        let h3 = if self.single_row {
            hset(h2, "Accept"@, "application/vnd.pgrst.object+json"@)
        } else {
            h2
        };
        assert("Range"@.len() == 5);
        assert("Accept"@.len() == 6);
        assert("Prefer"@.len() == 6);
        if self.single_row {
            crate::headers::lemma_hset_hget(
                h2,
                "Accept"@,
                "application/vnd.pgrst.object+json"@,
                "Range"@,
            );
        }
        let pp = self.prefer_parts(extra_prefer);
        if pp.len() > 0 {
            crate::headers::lemma_hset_hget(h3, "Prefer"@, join_sep(pp, ','), "Range"@);
        }
    }

    /// Rendering never disturbs the credentials: in a rendered request the
    /// `Authorization` and `apikey` headers read exactly what the builder's
    /// snapshot held, whatever the query state and terminal operation.
    pub proof fn lemma_rendering_preserves_credentials(self, extra_prefer: Seq<Seq<char>>)
        ensures
            hget(self.rendered_headers(extra_prefer), "Authorization"@) == self.headers.lookup(
                "Authorization"@,
            ),
            hget(self.rendered_headers(extra_prefer), "apikey"@) == self.headers.lookup(
                "apikey"@,
            ),
    {
        reveal_strlit("Authorization");
        reveal_strlit("apikey");
        reveal_strlit("Accept-Profile");
        reveal_strlit("Range");
        reveal_strlit("Accept");
        reveal_strlit("Prefer");
        assert("Authorization"@.len() == 13);
        assert("apikey"@.len() == 6);
        assert("Accept-Profile"@.len() == 14);
        assert("Range"@.len() == 5);
        assert("Accept"@.len() == 6);
        assert("Prefer"@.len() == 6);
        assert("apikey"@[0] == 'a' && "Accept"@[0] == 'A');
        assert("apikey"@[0] == 'a' && "Prefer"@[0] == 'P');
        let h0 = self.headers.view_of();
        let h1 = if self.schema@ == "public"@ {
            h0
        } else {
            hset(h0, "Accept-Profile"@, self.schema@)
        };
        if self.schema@ != "public"@ {
            crate::headers::lemma_hset_hget(h0, "Accept-Profile"@, self.schema@, "Authorization"@);
            crate::headers::lemma_hset_hget(h0, "Accept-Profile"@, self.schema@, "apikey"@);
        }
        let h2 = match self.row_range {
            Some((f, t)) => hset(h1, "Range"@, Self::range_header(f, t)),
            None => h1,
        };
        match self.row_range {
            Some((f, t)) => {
                crate::headers::lemma_hset_hget(
                    h1,
                    "Range"@,
                    Self::range_header(f, t),
                    "Authorization"@,
                );
                crate::headers::lemma_hset_hget(h1, "Range"@, Self::range_header(f, t), "apikey"@);
            },
            None => {},
        }
        let h3 = if self.single_row {
            hset(h2, "Accept"@, "application/vnd.pgrst.object+json"@)
        } else {
            h2
        };
        if self.single_row {
            crate::headers::lemma_hset_hget(
                h2,
                "Accept"@,
                "application/vnd.pgrst.object+json"@,
                "Authorization"@,
            );
            crate::headers::lemma_hset_hget(
                h2,
                "Accept"@,
                "application/vnd.pgrst.object+json"@,
                "apikey"@,
            );
        }
        let pp = self.prefer_parts(extra_prefer);
        if pp.len() > 0 {
            crate::headers::lemma_hset_hget(h3, "Prefer"@, join_sep(pp, ','), "Authorization"@);
            crate::headers::lemma_hset_hget(h3, "Prefer"@, join_sep(pp, ','), "apikey"@);
        }
    }

    /// A later selection overwrites an earlier one: after two `select`
    /// calls only the last column list is left, and only it is rendered.
    pub proof fn lemma_select_overwrites(self, first: Vec<String>, second: Vec<String>)
        ensures
            self.with_select(first).with_select(second) == self.with_select(second),
            self.with_select(first).with_select(second).rendered_url() == self.with_select(
                second,
            ).rendered_url(),
    {
    }

    fn build_request(&self, method: Method, body: Option<String>, extra_prefer: Vec<String>) -> (r:
        Request)
        ensures
            r.method == method,
            r.url@ == self.rendered_url(),
            r.headers.view_of() == self.rendered_headers(views_of(extra_prefer@)),
            r.body == body,
            r.expect_single == self.single_row,
    {
        let url = self.build_url();
        let headers = self.build_headers(extra_prefer);
        Request { method, url, headers, body, expect_single: self.single_row }
    }

    fn build_url(&self) -> (r: String)
        ensures
            r@ == self.rendered_url(),
    {
        broadcast use lemma_clause_texts_push, lemma_views_of_push;

        let mut parts: Vec<String> = Vec::new();
        match &self.select_cols {
            Some(cols) => {
                let mut s = "select=".to_owned();
                let joined = join_strings(cols, ',');
                s_append(&mut s, &joined);
                parts.push(s);
                proof {
                    assert(views_of(parts@) =~= self.select_part() + clause_texts(
                        self.filters@.take(0int),
                    ));
                }
            },
            None => {
                proof {
                    assert(views_of(parts@) =~= self.select_part() + clause_texts(
                        self.filters@.take(0int),
                    ));
                }
            },
        }
        let mut i: usize = 0;
        let n = self.filters.len();
        while i < n
            invariant
                i <= n,
                n == self.filters@.len(),
                views_of(parts@) == self.select_part() + clause_texts(self.filters@.take(i as int)),
            decreases n - i,
        {
            let ghost pre = parts@;
            let cs = clause_string(&self.filters[i]);
            let ghost csv = cs@;
            parts.push(cs);
            proof {
                assert(views_of(parts@) =~= views_of(pre).push(csv));
                assert(self.filters@.take(i + 1 as int) =~= self.filters@.take(i as int).push(
                    self.filters@[i as int],
                ));
                lemma_clause_texts_push(self.filters@.take(i as int), self.filters@[i as int]);
                assert(views_of(parts@) =~= self.select_part() + clause_texts(
                    self.filters@.take(i + 1 as int),
                ));
            }
            i = i + 1;
        }
        proof {
            assert(self.filters@.take(n as int) =~= self.filters@);
        }
        if self.orderings.len() > 0 {
            let os = order_string(&self.orderings);
            parts.push(os);
            proof {
                assert(views_of(parts@) =~= self.query_parts());
            }
        } else {
            proof {
                assert(views_of(parts@) =~= self.query_parts());
            }
        }
        let mut url = String::new();
        s_append(&mut url, &self.base_url);
        push_char(&mut url, '/');
        s_append(&mut url, &self.relation);
        if parts.len() > 0 {
            push_char(&mut url, '?');
            let qs = join_strings(&parts, '&');
            s_append(&mut url, &qs);
            proof {
                assert(url@ =~= self.rendered_url());
            }
        } else {
            proof {
                assert(url@ =~= self.rendered_url());
            }
        }
        url
    }

    fn build_headers(&self, extra_prefer: Vec<String>) -> (r: HeaderSet)
        ensures
            r.view_of() == self.rendered_headers(views_of(extra_prefer@)),
    {
        broadcast use lemma_views_of_push;

        let mut h = self.headers.duplicate();
        let public_name = "public".to_owned();
        if !(self.schema == public_name) {
            h = h.set("Accept-Profile".to_owned(), self.schema.clone());
        }
        match self.row_range {
            Some((from, to)) => {
                let mut rv = u64_to_string(from);
                push_char(&mut rv, '-');
                let to_s = u64_to_string(to);
                s_append(&mut rv, &to_s);
                proof {
                    assert(rv@ =~= Self::range_header(from, to));
                }
                h = h.set("Range".to_owned(), rv);
            },
            None => {},
        }
        if self.single_row {
            h = h.set("Accept".to_owned(), "application/vnd.pgrst.object+json".to_owned());
        }
        let mut prefer: Vec<String> = Vec::new();
        match self.count {
            Some(k) => {
                let mut c = "count=".to_owned();
                c.append(k.token());
                prefer.push(c);
                proof {
                    assert(views_of(prefer@) =~= seq!["count="@ + count_token(k)]);
                }
            },
            None => {
                proof {
                    assert(views_of(prefer@) =~= Seq::<Seq<char>>::empty());
                }
            },
        }
        let mut j: usize = 0;
        let m = extra_prefer.len();
        while j < m
            invariant
                j <= m,
                m == extra_prefer@.len(),
                views_of(prefer@) == self.prefer_parts(views_of(extra_prefer@.take(j as int))),
            decreases m - j,
        {
            let ghost pre = prefer@;
            let e = extra_prefer[j].clone();
            let ghost ev = e@;
            prefer.push(e);
            proof {
                assert(views_of(prefer@) =~= views_of(pre).push(ev));
                assert(extra_prefer@.take(j + 1 as int) =~= extra_prefer@.take(j as int).push(
                    extra_prefer@[j as int],
                ));
                lemma_views_of_push(extra_prefer@.take(j as int), extra_prefer@[j as int]);
                assert(views_of(prefer@) =~= self.prefer_parts(
                    views_of(extra_prefer@.take(j + 1 as int)),
                ));
            }
            j = j + 1;
        }
        proof {
            assert(extra_prefer@.take(m as int) =~= extra_prefer@);
        }
        if prefer.len() > 0 {
            let pv = join_strings(&prefer, ',');
            h = h.set("Prefer".to_owned(), pv);
        }
        h
    }
}

fn value_string(v: &Value) -> (r: String)
    ensures
        r@ == value_text(*v),
{
    match v {
        Value::Bool(b) => if *b {
            "true".to_owned()
        } else {
            "false".to_owned()
        },
        Value::Int(i) => i64_to_string(*i),
        Value::Text(s) => s.clone(),
    }
}

fn encoded_value(v: &Value) -> (r: String)
    ensures
        r@ == pct_encode(value_text(*v)),
{
    let s = value_string(v);
    percent_encode(s.as_str())
}

fn clause_value_string(op: FilterOp, cv: &ClauseValue) -> (r: String)
    ensures
        r@ == clause_value_text(op, *cv),
{
    broadcast use lemma_encoded_values_push, lemma_views_of_push;

    match cv {
        ClauseValue::Scalar(v) => encoded_value(v),
        ClauseValue::List(vs) => {
            let mut enc: Vec<String> = Vec::new();
            proof {
                assert(views_of(enc@) =~= encoded_values(vs@.take(0int)));
            }
            let mut i: usize = 0;
            let n = vs.len();
            while i < n
                invariant
                    i <= n,
                    n == vs@.len(),
                    views_of(enc@) == encoded_values(vs@.take(i as int)),
                decreases n - i,
            {
                let ghost pre = enc@;
                let ev = encoded_value(&vs[i]);
                let ghost evv = ev@;
                enc.push(ev);
                proof {
                    assert(views_of(enc@) =~= views_of(pre).push(evv));
                    assert(vs@.take(i + 1 as int) =~= vs@.take(i as int).push(vs@[i as int]));
                    lemma_encoded_values_push(vs@.take(i as int), vs@[i as int]);
                    assert(views_of(enc@) =~= encoded_values(vs@.take(i + 1 as int)));
                }
                i = i + 1;
            }
            proof {
                assert(vs@.take(n as int) =~= vs@);
            }
            let joined = join_strings(&enc, ',');
            let open_c = match op {
                FilterOp::Contains => '{',
                _ => '(',
            };
            let close_c = match op {
                FilterOp::Contains => '}',
                _ => ')',
            };
            let mut s = String::new();
            push_char(&mut s, open_c);
            s_append(&mut s, &joined);
            push_char(&mut s, close_c);
            proof {
                assert(s@ =~= clause_value_text(op, *cv));
            }
            s
        },
    }
}

fn clause_string(c: &FilterClause) -> (r: String)
    ensures
        r@ == clause_text(*c),
{
    match c {
        FilterClause::Cond { column, op, value } => {
            let mut s = String::new();
            s_append(&mut s, column);
            push_char(&mut s, '=');
            s.append(op.token());
            push_char(&mut s, '.');
            let v = clause_value_string(*op, value);
            s_append(&mut s, &v);
            proof {
                assert(s@ =~= clause_text(*c));
            }
            s
        },
        FilterClause::OrGroup { expr } => {
            let mut s = "or=(".to_owned();
            s_append(&mut s, expr);
            push_char(&mut s, ')');
            proof {
                assert(s@ =~= clause_text(*c));
            }
            s
        },
    }
}

fn order_term_string(t: &OrderTerm) -> (r: String)
    ensures
        r@ == order_text(*t),
{
    let mut s = String::new();
    s_append(&mut s, &t.column);
    if t.ascending {
        s.append(".asc");
    } else {
        s.append(".desc");
    }
    match t.nulls_first {
        Some(true) => s.append(".nullsfirst"),
        Some(false) => s.append(".nullslast"),
        None => {},
    }
    proof {
        assert(s@ =~= order_text(*t));
    }
    s
}

fn order_string(ts: &Vec<OrderTerm>) -> (r: String)
    ensures
        r@ == "order="@ + join_sep(order_texts(ts@), ','),
{
    broadcast use lemma_order_texts_push, lemma_views_of_push;

    let mut acc: Vec<String> = Vec::new();
    proof {
        assert(views_of(acc@) =~= order_texts(ts@.take(0int)));
    }
    let mut i: usize = 0;
    let n = ts.len();
    while i < n
        invariant
            i <= n,
            n == ts@.len(),
            views_of(acc@) == order_texts(ts@.take(i as int)),
        decreases n - i,
    {
        let ghost pre = acc@;
        let os = order_term_string(&ts[i]);
        let ghost osv = os@;
        acc.push(os);
        proof {
            assert(views_of(acc@) =~= views_of(pre).push(osv));
            assert(ts@.take(i + 1 as int) =~= ts@.take(i as int).push(ts@[i as int]));
            lemma_order_texts_push(ts@.take(i as int), ts@[i as int]);
            assert(views_of(acc@) =~= order_texts(ts@.take(i + 1 as int)));
        }
        i = i + 1;
    }
    proof {
        assert(ts@.take(n as int) =~= ts@);
    }
    let joined = join_strings(&acc, ',');
    let mut s = "order=".to_owned();
    s_append(&mut s, &joined);
    s
}

} // verus!
