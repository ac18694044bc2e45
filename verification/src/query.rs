//! The query builder: accumulates clause fragments and renders them into one
//! SELECT statement in a fixed clause order.

use vstd::prelude::*;

use crate::cond::CondTree;
use crate::cond::Condition;
use crate::cond::cond_view;
use crate::cond::conds_view;
use crate::cond::render_condition;
use crate::cond::render_list;
use crate::text::dec_str;
use crate::text::join_strings;
use crate::text::join_with;
use crate::text::prefixed_concat;
use crate::text::u64_to_string;

verus! {

/// Direction of a graph traversal arrow.
#[derive(Debug)]
pub enum Direction {
    /// Outgoing (`->`).
    Out,
    /// Incoming (`<-`).
    In,
}

/// Parameters for a two-step graph traversal expansion.
#[derive(Debug)]
pub struct GraphExpandParams {
    /// First traversal (direction and graph table).
    pub from: (Direction, String),
    /// Second traversal (direction and edge table).
    pub to: (Direction, String),
    /// Optional alias for the expansion.
    pub alias: Option<String>,
}

/// Builder for one SELECT statement.
#[derive(Debug)]
pub struct QueryBuilder {
    select_items: Vec<String>,
    graph_expansions: Vec<String>,
    traverse_clauses: Vec<String>,
    distinct: bool,
    from_table: Option<String>,
    fetch_clauses: Vec<String>,
    where_clauses: Vec<Condition>,
    order_by: Vec<String>,
    limit: Option<u64>,
    start: Option<u64>,
}

/// The state of a [`QueryBuilder`], with every string as its character
/// sequence and every condition as its tree view.
#[verifier::ext_equal]
pub struct QueryView {
    pub select_items: Seq<Seq<char>>,
    pub graph_expansions: Seq<Seq<char>>,
    pub traverse_clauses: Seq<Seq<char>>,
    pub distinct: bool,
    pub from_table: Option<Seq<char>>,
    pub fetch_clauses: Seq<Seq<char>>,
    pub where_clauses: Seq<CondTree>,
    pub order_by: Seq<Seq<char>>,
    pub limit: Option<u64>,
    pub start: Option<u64>,
}

impl View for QueryBuilder {
    type V = QueryView;

    closed spec fn view(&self) -> QueryView {
        QueryView {
            select_items: self.select_items.deep_view(),
            graph_expansions: self.graph_expansions.deep_view(),
            traverse_clauses: self.traverse_clauses.deep_view(),
            distinct: self.distinct,
            from_table: self.from_table.deep_view(),
            fetch_clauses: self.fetch_clauses.deep_view(),
            where_clauses: conds_view(self.where_clauses@),
            order_by: self.order_by.deep_view(),
            limit: self.limit,
            start: self.start,
        }
    }
}

/// The state of a fresh builder: a lone wildcard select item, nothing else.
pub open spec fn init_query_view() -> QueryView {
    QueryView {
        select_items: seq!["*"@],
        graph_expansions: Seq::empty(),
        traverse_clauses: Seq::empty(),
        distinct: false,
        from_table: None,
        fetch_clauses: Seq::empty(),
        where_clauses: Seq::empty(),
        order_by: Seq::empty(),
        limit: None,
        start: None,
    }
}

/// One select entry: the expression, with ` AS alias` when an alias is given.
pub open spec fn select_entry(expr: Seq<char>, alias: Option<Seq<char>>) -> Seq<char> {
    match alias {
        Some(a) => expr + " AS "@ + a,
        None => expr,
    }
}

/// Whether the select list still holds only the default wildcard.
pub open spec fn wildcard_only(items: Seq<Seq<char>>) -> bool {
    items.len() == 1 && items[0] == "*"@
}

/// The arrow rendering of one traversal direction.
pub open spec fn arrow_of(d: Direction) -> Seq<char> {
    match d {
        Direction::Out => "->"@,
        Direction::In => "<-"@,
    }
}

/// One two-step traversal fragment. The second hop's arrow is always
/// rendered outward, whatever direction was asked for: the builder keeps
/// that long-standing behaviour of its output format.
pub open spec fn traverse_fragment(p: GraphExpandParams) -> Seq<char> {
    let base = arrow_of(p.from.0) + p.from.1@ + "->"@ + p.to.1@ + ".*"@;
    match p.alias {
        Some(a) => base + " AS "@ + a@,
        None => base,
    }
}

/// The `SELECT ... FROM table` head of the rendered query.
pub open spec fn spec_select_clause(q: QueryView) -> Seq<char>
    recommends
        q.from_table is Some,
{
    "SELECT "@ + (if q.distinct {
        "DISTINCT "@
    } else {
        Seq::<char>::empty()
    }) + join_with(q.select_items + q.graph_expansions, ", "@) + " FROM "@ + q.from_table->0
}

/// The traversal fragments, each preceded by one space.
pub open spec fn spec_traverse_part(q: QueryView) -> Seq<char> {
    prefixed_concat(q.traverse_clauses, " "@)
}

/// The WHERE clause: the top-level conditions joined by ` AND `, or nothing.
pub open spec fn spec_where_part(q: QueryView) -> Seq<char> {
    if q.where_clauses.len() == 0 {
        Seq::empty()
    } else {
        " WHERE "@ + render_list(q.where_clauses, " AND "@)
    }
}

/// The ORDER BY clause, or nothing.
pub open spec fn spec_order_part(q: QueryView) -> Seq<char> {
    if q.order_by.len() == 0 {
        Seq::empty()
    } else {
        " ORDER BY "@ + join_with(q.order_by, ", "@)
    }
}

/// The LIMIT clause, or nothing.
pub open spec fn spec_limit_part(q: QueryView) -> Seq<char> {
    match q.limit {
        Some(n) => " LIMIT "@ + dec_str(n as nat),
        None => Seq::empty(),
    }
}

/// The START clause, or nothing.
pub open spec fn spec_start_part(q: QueryView) -> Seq<char> {
    match q.start {
        Some(n) => " START "@ + dec_str(n as nat),
        None => Seq::empty(),
    }
}

/// The FETCH clause, or nothing.
pub open spec fn spec_fetch_part(q: QueryView) -> Seq<char> {
    if q.fetch_clauses.len() == 0 {
        Seq::empty()
    } else {
        " FETCH "@ + join_with(q.fetch_clauses, ", "@)
    }
}

/// The whole rendered query, clauses in the builder's fixed canonical
/// order: SELECT, traversals, WHERE, ORDER BY, LIMIT, START, FETCH.
pub open spec fn spec_query(q: QueryView) -> Seq<char>
    recommends
        q.from_table is Some,
{
    spec_select_clause(q) + spec_traverse_part(q) + spec_where_part(q) + spec_order_part(q)
        + spec_limit_part(q) + spec_start_part(q) + spec_fetch_part(q)
}

/// The outcome of `build` on a builder in state `q`: the rendered query,
/// or the missing-FROM error when no source table is set.
pub open spec fn spec_build_outcome(q: QueryView) -> Result<Seq<char>, Seq<char>> {
    if q.from_table is Some {
        Ok(spec_query(q))
    } else {
        Err("The FROM clause is required."@)
    }
}

/// The result of `build` as character sequences.
pub open spec fn build_result_view(r: Result<String, &'static str>) -> Result<
    Seq<char>,
    Seq<char>,
> {
    match r {
        Ok(out) => Ok(out@),
        Err(e) => Err(e@),
    }
}

/// Whether this string is exactly the wildcard `*`.
fn is_wildcard(s: &String) -> (r: bool)
    ensures
        r == (s@ == "*"@),
{
    proof {
        reveal_strlit("*");
    }
    let st = s.as_str();
    if st.unicode_len() == 1 {
        let c = st.get_char(0);
        proof {
            if c == '*' {
                assert(s@ =~= "*"@);
            }
        }
        c == '*'
    } else {
        false
    }
}

impl QueryBuilder {
    /// Creates a new builder, defaulting to `SELECT *`.
    pub fn new() -> (r: Self)
        ensures
            r@ == init_query_view(),
    {
        let mut select_items: Vec<String> = Vec::new();
        select_items.push(String::from_str("*"));
        let r = QueryBuilder {
            select_items,
            graph_expansions: Vec::new(),
            traverse_clauses: Vec::new(),
            distinct: false,
            from_table: None,
            fetch_clauses: Vec::new(),
            where_clauses: Vec::new(),
            order_by: Vec::new(),
            limit: None,
            start: None,
        };
        proof {
            assert(r@ =~= init_query_view());
        }
        r
    }

    /// Adds a field or expression to select, with optional alias; the first
    /// such call clears the default wildcard entry.
    /// Example: `.select("col", Some("alias"))` yields `col AS alias`.
    pub fn select(&mut self, expr: &str, alias: Option<&str>) -> (r: &mut Self)
        ensures
            (*r)@ == (QueryView {
                select_items: (if wildcard_only(old(self)@.select_items) {
                    Seq::<Seq<char>>::empty()
                } else {
                    old(self)@.select_items
                }).push(select_entry(expr@, alias.deep_view())),
                ..old(self)@
            }),
            *final(self) == *final(r),
    {
        let ghost prior = self@;
        if self.select_items.len() == 1 && is_wildcard(&self.select_items[0]) {
            self.select_items = Vec::new();
            proof {
                assert(wildcard_only(prior.select_items));
                assert(self.select_items.deep_view() =~= Seq::<Seq<char>>::empty());
            }
        } else {
            proof {
                assert(!wildcard_only(prior.select_items));
            }
        }
        let item = match alias {
            Some(a) => {
                let mut s = expr.to_owned();
                s.append(" AS ");
                s.append(a);
                s
            },
            None => expr.to_owned(),
        };
        self.select_items.push(item);
        proof {
            assert(self@ =~= (QueryView {
                select_items: (if wildcard_only(prior.select_items) {
                    Seq::<Seq<char>>::empty()
                } else {
                    prior.select_items
                }).push(select_entry(expr@, alias.deep_view())),
                ..prior
            }));
        }
        self
    }

    /// Sets the table to select data FROM. This is a required clause.
    pub fn from(&mut self, table: &str) -> (r: &mut Self)
        ensures
            (*r)@ == (QueryView { from_table: Some(table@), ..old(self)@ }),
            *final(self) == *final(r),
    {
        let ghost prior = self@;
        self.from_table = Some(table.to_owned());
        proof {
            assert(self@ =~= (QueryView { from_table: Some(table@), ..prior }));
        }
        self
    }

    /// Adds a field to the FETCH clause. Can be called multiple times.
    pub fn fetch(&mut self, field: &str) -> (r: &mut Self)
        ensures
            (*r)@ == (QueryView {
                fetch_clauses: old(self)@.fetch_clauses.push(field@),
                ..old(self)@
            }),
            *final(self) == *final(r),
    {
        let ghost prior = self@;
        self.fetch_clauses.push(field.to_owned());
        proof {
            assert(self@ =~= (QueryView {
                fetch_clauses: prior.fetch_clauses.push(field@),
                ..prior
            }));
        }
        self
    }

    /// Adds a raw projection that is appended to the select list at render
    /// time (not validated).
    pub fn graph_expand(&mut self, expansion_clause: &str) -> (r: &mut Self)
        ensures
            (*r)@ == (QueryView {
                graph_expansions: old(self)@.graph_expansions.push(expansion_clause@),
                ..old(self)@
            }),
            *final(self) == *final(r),
    {
        let ghost prior = self@;
        self.graph_expansions.push(expansion_clause.to_owned());
        proof {
            assert(self@ =~= (QueryView {
                graph_expansions: prior.graph_expansions.push(expansion_clause@),
                ..prior
            }));
        }
        self
    }

    /// A convenience shortcut to add a simple, raw condition string.
    /// Equivalent to `where_complex(Condition::Simple(...))`.
    pub fn where_simple(&mut self, condition: &str) -> (r: &mut Self)
        ensures
            (*r)@ == (QueryView {
                where_clauses: old(self)@.where_clauses.push(CondTree::Leaf(condition@)),
                ..old(self)@
            }),
            *final(self) == *final(r),
    {
        let ghost prior = self@;
        self.where_clauses.push(Condition::Simple(condition.to_owned()));
        proof {
            assert(self@ =~= (QueryView {
                where_clauses: prior.where_clauses.push(CondTree::Leaf(condition@)),
                ..prior
            }));
        }
        self
    }

    /// Adds a complex condition to the WHERE clause. All top-level
    /// conditions are joined by AND.
    pub fn where_complex(&mut self, condition: Condition) -> (r: &mut Self)
        ensures
            (*r)@ == (QueryView {
                where_clauses: old(self)@.where_clauses.push(condition@),
                ..old(self)@
            }),
            *final(self) == *final(r),
    {
        let ghost prior = self@;
        let ghost c = condition;
        self.where_clauses.push(condition);
        proof {
            assert(self@ =~= (QueryView { where_clauses: prior.where_clauses.push(c@), ..prior }));
        }
        self
    }

    /// Adds an ORDER BY entry. Can be called multiple times.
    pub fn order_by(&mut self, field_and_direction: &str) -> (r: &mut Self)
        ensures
            (*r)@ == (QueryView {
                order_by: old(self)@.order_by.push(field_and_direction@),
                ..old(self)@
            }),
            *final(self) == *final(r),
    {
        let ghost prior = self@;
        self.order_by.push(field_and_direction.to_owned());
        proof {
            assert(self@ =~= (QueryView {
                order_by: prior.order_by.push(field_and_direction@),
                ..prior
            }));
        }
        self
    }

    /// Sets the LIMIT clause.
    pub fn limit(&mut self, count: u64) -> (r: &mut Self)
        ensures
            (*r)@ == (QueryView { limit: Some(count), ..old(self)@ }),
            *final(self) == *final(r),
    {
        let ghost prior = self@;
        self.limit = Some(count);
        proof {
            assert(self@ =~= (QueryView { limit: Some(count), ..prior }));
        }
        self
    }

    /// Sets the START (offset) clause.
    pub fn start(&mut self, offset: u64) -> (r: &mut Self)
        ensures
            (*r)@ == (QueryView { start: Some(offset), ..old(self)@ }),
            *final(self) == *final(r),
    {
        let ghost prior = self@;
        self.start = Some(offset);
        proof {
            assert(self@ =~= (QueryView { start: Some(offset), ..prior }));
        }
        self
    }

    /// Enables DISTINCT in the SELECT clause.
    pub fn distinct(&mut self) -> (r: &mut Self)
        ensures
            (*r)@ == (QueryView { distinct: true, ..old(self)@ }),
            *final(self) == *final(r),
    {
        let ghost prior = self@;
        self.distinct = true;
        proof {
            assert(self@ =~= (QueryView { distinct: true, ..prior }));
        }
        self
    }

    /// Adds a two-step graph traversal with optional alias.
    pub fn graph_traverse(&mut self, params: GraphExpandParams) -> (r: &mut Self)
        ensures
            (*r)@ == (QueryView {
                traverse_clauses: old(self)@.traverse_clauses.push(traverse_fragment(params)),
                ..old(self)@
            }),
            *final(self) == *final(r),
    {
        let ghost prior = self@;
        let ghost p = params;
        let GraphExpandParams { from, to, alias } = params;
        let mut clause = match from.0 {
            Direction::Out => String::from_str("->"),
            Direction::In => String::from_str("<-"),
        };
        clause.append(from.1.as_str());
        clause.append("->");
        clause.append(to.1.as_str());
        clause.append(".*");
        if let Some(a) = alias {
            clause.append(" AS ");
            clause.append(a.as_str());
        }
        proof {
            assert(clause@ =~= traverse_fragment(p));
        }
        self.traverse_clauses.push(clause);
        proof {
            assert(self@ =~= (QueryView {
                traverse_clauses: prior.traverse_clauses.push(traverse_fragment(p)),
                ..prior
            }));
        }
        self
    }

    /// Renders the accumulated state into one query string.
    ///
    /// Fails with the missing-FROM error exactly when no source table was
    /// set, whatever else was accumulated. On success the result is the
    /// clauses in the canonical order, each omitted when its backing data
    /// is empty. The builder is not changed: the outcome is a pure
    /// function of the state, so repeated calls return the same string.
    #[verifier::rlimit(100)]
    pub fn build(&self) -> (r: Result<String, &'static str>)
        ensures
            build_result_view(r) == spec_build_outcome(self@),
            self@.from_table is Some ==> (r matches Ok(out) && out@ == spec_query(self@)),
            self@.from_table is None ==> (r matches Err(e) && e@
                == "The FROM clause is required."@),
    {
        let ghost q = self@;
        let from_table = match &self.from_table {
            Some(t) => t,
            None => {
                return Err("The FROM clause is required.");
            },
        };
        let mut all_selects: Vec<String> = Vec::new();
        let mut i: usize = 0;
        while i < self.select_items.len()
            invariant
                i <= self.select_items@.len(),
                all_selects@.len() == i,
                forall|x: int| 0 <= x < i ==> all_selects@[x]@ == self.select_items@[x]@,
            decreases self.select_items@.len() - i,
        {
            all_selects.push(self.select_items[i].clone());
            i += 1;
        }
        let mut j: usize = 0;
        while j < self.graph_expansions.len()
            invariant
                j <= self.graph_expansions@.len(),
                all_selects@.len() == self.select_items@.len() + j,
                forall|x: int|
                    0 <= x < self.select_items@.len() ==> all_selects@[x]@
                        == self.select_items@[x]@,
                forall|x: int|
                    0 <= x < j ==> all_selects@[self.select_items@.len() + x]@
                        == self.graph_expansions@[x]@,
            decreases self.graph_expansions@.len() - j,
        {
            all_selects.push(self.graph_expansions[j].clone());
            j += 1;
        }
        proof {
            assert(all_selects.deep_view() =~= q.select_items + q.graph_expansions);
        }
        let select_joined = join_strings(&all_selects, ", ");

        let mut out = String::from_str("SELECT ");
        if self.distinct {
            out.append("DISTINCT ");
        }
        out.append(select_joined.as_str());
        out.append(" FROM ");
        out.append(from_table.as_str());
        proof {
            assert(out@ =~= spec_select_clause(q));
        }

        let ghost head = spec_select_clause(q);
        let mut k: usize = 0;
        while k < self.traverse_clauses.len()
            invariant
                k <= self.traverse_clauses@.len(),
                out@ == head + prefixed_concat(q.traverse_clauses.take(k as int), " "@),
                q == self@,
                head == spec_select_clause(q),
            decreases self.traverse_clauses@.len() - k,
        {
            out.append(" ");
            out.append(self.traverse_clauses[k].as_str());
            proof {
                let tc = q.traverse_clauses;
                assert(tc.take(k as int + 1).drop_last() =~= tc.take(k as int));
                assert(tc.take(k as int + 1).last() == tc[k as int]);
                assert(out@ =~= head + prefixed_concat(tc.take(k as int + 1), " "@));
            }
            k += 1;
        }
        proof {
            assert(q.traverse_clauses.take(q.traverse_clauses.len() as int)
                =~= q.traverse_clauses);
            assert(out@ == head + spec_traverse_part(q));
        }

        let ghost with_traverse = head + spec_traverse_part(q);
        if self.where_clauses.len() > 0 {
            let mut rendered: Vec<String> = Vec::new();
            let mut w: usize = 0;
            while w < self.where_clauses.len()
                invariant
                    w <= self.where_clauses@.len(),
                    rendered@.len() == w,
                    forall|x: int|
                        0 <= x < w ==> rendered@[x]@ == crate::cond::render_tree(
                            q.where_clauses[x],
                        ),
                    q == self@,
                decreases self.where_clauses@.len() - w,
            {
                let s = render_condition(&self.where_clauses[w]);
                proof {
                    assert(q.where_clauses[w as int] == cond_view(self.where_clauses@[w as int]));
                }
                rendered.push(s);
                w += 1;
            }
            let where_joined = join_strings(&rendered, " AND ");
            proof {
                assert(rendered.deep_view().len() == q.where_clauses.len());
                assert forall|x: int| 0 <= x < q.where_clauses.len() implies rendered.deep_view()[x]
                    == crate::cond::render_tree(q.where_clauses[x]) by {
                    assert(rendered.deep_view()[x] == rendered@[x]@);
                }
                crate::cond::lemma_render_list_is_join(
                    q.where_clauses,
                    rendered.deep_view(),
                    " AND "@,
                );
            }
            out.append(" WHERE ");
            out.append(where_joined.as_str());
        }
        proof {
            assert(out@ =~= with_traverse + spec_where_part(q));
        }

        let ghost with_where = with_traverse + spec_where_part(q);
        if self.order_by.len() > 0 {
            let order_joined = join_strings(&self.order_by, ", ");
            out.append(" ORDER BY ");
            out.append(order_joined.as_str());
        }
        proof {
            assert(out@ =~= with_where + spec_order_part(q));
        }

        let ghost with_order = with_where + spec_order_part(q);
        if let Some(l) = self.limit {
            out.append(" LIMIT ");
            let ls = u64_to_string(l);
            out.append(ls.as_str());
        }
        proof {
            assert(out@ =~= with_order + spec_limit_part(q));
        }

        let ghost with_limit = with_order + spec_limit_part(q);
        if let Some(s) = self.start {
            out.append(" START ");
            let ss = u64_to_string(s);
            out.append(ss.as_str());
        }
        proof {
            assert(out@ =~= with_limit + spec_start_part(q));
        }

        let ghost with_start = with_limit + spec_start_part(q);
        if self.fetch_clauses.len() > 0 {
            let fetch_joined = join_strings(&self.fetch_clauses, ", ");
            out.append(" FETCH ");
            out.append(fetch_joined.as_str());
        }
        proof {
            assert(out@ =~= with_start + spec_fetch_part(q));
            assert(out@ =~= spec_query(q));
        }
        Ok(out)
    }
}

/// A build with no source table fails with the missing-FROM error,
/// whatever other clauses were set.
pub proof fn lemma_missing_from(q: QueryView)
    requires
        q.from_table is None,
    ensures
        spec_build_outcome(q) == Err::<Seq<char>, Seq<char>>("The FROM clause is required."@),
{
}

/// Building twice from one unmodified builder yields the same outcome both
/// times: `build` borrows the builder immutably and its result is pinned
/// by the builder's state alone.
pub proof fn lemma_build_idempotent(
    q: QueryView,
    first: Result<Seq<char>, Seq<char>>,
    second: Result<Seq<char>, Seq<char>>,
)
    requires
        first == spec_build_outcome(q),
        second == spec_build_outcome(q),
    ensures
        first == second,
{
}

/// Fetch fields keep call order: one more fetch field appends to the end
/// of the rendered FETCH clause, after a separating comma.
pub proof fn lemma_fetch_keeps_call_order(q: QueryView, field: Seq<char>)
    ensures
        spec_fetch_part(QueryView { fetch_clauses: q.fetch_clauses.push(field), ..q }) == if q
            .fetch_clauses.len() == 0 {
            " FETCH "@ + field
        } else {
            spec_fetch_part(q) + ", "@ + field
        },
{
    crate::text::lemma_join_keeps_call_order(q.fetch_clauses, field, ", "@);
    let q2 = QueryView { fetch_clauses: q.fetch_clauses.push(field), ..q };
    if q.fetch_clauses.len() == 0 {
        assert(spec_fetch_part(q2) == " FETCH "@ + field);
    } else {
        assert(spec_fetch_part(q2) =~= spec_fetch_part(q) + ", "@ + field);
    }
}

/// Order-by entries keep call order: one more entry appends to the end of
/// the rendered ORDER BY clause, after a separating comma.
pub proof fn lemma_order_by_keeps_call_order(q: QueryView, entry: Seq<char>)
    ensures
        spec_order_part(QueryView { order_by: q.order_by.push(entry), ..q }) == if q
            .order_by.len() == 0 {
            " ORDER BY "@ + entry
        } else {
            spec_order_part(q) + ", "@ + entry
        },
{
    crate::text::lemma_join_keeps_call_order(q.order_by, entry, ", "@);
    let q2 = QueryView { order_by: q.order_by.push(entry), ..q };
    if q.order_by.len() == 0 {
        assert(spec_order_part(q2) == " ORDER BY "@ + entry);
    } else {
        assert(spec_order_part(q2) =~= spec_order_part(q) + ", "@ + entry);
    }
}

/// Select items keep call order: with no graph expansions, one more select
/// entry appends to the end of the rendered select list, after a
/// separating comma.
pub proof fn lemma_select_keeps_call_order(q: QueryView, entry: Seq<char>)
    requires
        q.graph_expansions.len() == 0,
        q.select_items.len() > 0,
    ensures
        ({
            let q2 = QueryView { select_items: q.select_items.push(entry), ..q };
            join_with(q2.select_items + q2.graph_expansions, ", "@) == join_with(
                q.select_items + q.graph_expansions,
                ", "@,
            ) + ", "@ + entry
        }),
{
    crate::text::lemma_join_keeps_call_order(q.select_items, entry, ", "@);
    assert(q.select_items + q.graph_expansions =~= q.select_items);
    assert(q.select_items.push(entry) + q.graph_expansions =~= q.select_items.push(entry));
}

/// A builder that only had its source table set renders to exactly
/// `SELECT * FROM` followed by the table: for every table name, such a
/// build succeeds and begins with that text.
pub proof fn lemma_from_only_build(table: Seq<char>)
    ensures
        spec_query(QueryView { from_table: Some(table), ..init_query_view() }) == "SELECT * FROM "@
            + table,
{
    let q = QueryView { from_table: Some(table), ..init_query_view() };
    reveal_strlit("SELECT ");
    reveal_strlit("*");
    reveal_strlit(", ");
    reveal_strlit(" FROM ");
    reveal_strlit("SELECT * FROM ");
    assert(q.select_items + q.graph_expansions =~= seq!["*"@]);
    assert(join_with(seq!["*"@], ", "@) == "*"@);
    assert(spec_traverse_part(q) == Seq::<char>::empty());
    assert(spec_where_part(q) == Seq::<char>::empty());
    assert(spec_order_part(q) == Seq::<char>::empty());
    assert(spec_limit_part(q) == Seq::<char>::empty());
    assert(spec_start_part(q) == Seq::<char>::empty());
    assert(spec_fetch_part(q) == Seq::<char>::empty());
    assert(spec_query(q) =~= spec_select_clause(q));
    assert(spec_select_clause(q) =~= "SELECT * FROM "@ + table);
}

/// Adding a raw condition through the shorthand and adding the same text
/// wrapped as a leaf condition put the same entry into the builder's
/// state, so the rendered queries agree.
pub proof fn lemma_shorthand_equivalence(q: QueryView, c: Condition, text: Seq<char>)
    requires
        c matches Condition::Simple(s) && s@ == text,
    ensures
        (QueryView { where_clauses: q.where_clauses.push(cond_view(c)), ..q }) == (QueryView {
            where_clauses: q.where_clauses.push(CondTree::Leaf(text)),
            ..q
        }),
        spec_query(QueryView { where_clauses: q.where_clauses.push(cond_view(c)), ..q })
            == spec_query(QueryView { where_clauses: q.where_clauses.push(CondTree::Leaf(text)), ..q }),
{
    assert(cond_view(c) == CondTree::Leaf(text));
}

} // verus!
