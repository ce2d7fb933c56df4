//! The SELECT statement builder, DuckLake time travel and aggregates.

use vstd::prelude::*;

use crate::error::DuckLakeError;
use crate::ident::{escape_sql_string, escaped};
use crate::query::filter::{
    filters_values, lemma_where_placeholders, where_pieces, write_where, FilterExpr, OrderDir,
    OrderExpr, ColumnExpr,
};
use crate::query::table::{
    join_pieces, lemma_join_text, opt_view, table_ref_of, table_ref_text, views, write_joined,
    TableInfo,
};
use crate::sql::{
    all_text, lemma_all_text_concat, consecutive, lemma_consecutive_concat, lemma_placeholders_concat,
    lemma_placeholders_text, placeholders, render, Piece, SqlWriter,
};
use crate::text::decimal;

verus! {

/// A DuckLake time travel reference: a historical state of the table.
#[derive(Debug, Clone)]
pub enum SnapshotRef {
    /// The table after the transaction with this snapshot version committed.
    Version(u64),
    /// The table as it was at this point in time (a timestamp literal
    /// understood by DuckDB, such as `2025-06-01T12:00:00Z`).
    Timestamp(String),
}

/// An aggregate function over one column.
#[derive(Debug, Clone, Copy, PartialEq, Eq)]
pub enum Aggregate {
    /// `SUM`
    Sum,
    /// `AVG`
    Avg,
    /// `MIN`
    Min,
    /// `MAX`
    Max,
}

/// The parts of a SELECT statement, as the builder holds them.
pub ghost struct SelectParts<P> {
    pub catalog: Option<Seq<char>>,
    pub schema: Seq<char>,
    pub table: Seq<char>,
    pub columns: Seq<Seq<char>>,
    pub filters: Seq<FilterExpr<P>>,
    pub group_by: Seq<Seq<char>>,
    pub having: Seq<FilterExpr<P>>,
    pub order_by: Seq<OrderExpr>,
    pub limit: Option<usize>,
    pub offset: Option<usize>,
    pub snapshot: Option<SnapshotRef>,
}

/// Builder for `SELECT` statements.
///
/// Shape of the statement:
///
/// ```text
/// SELECT col1, col2, ...
/// FROM [catalog.]schema.table [AT (VERSION => n | TIMESTAMP => 'ts')]
/// [WHERE ...] [GROUP BY ...] [HAVING ...] [ORDER BY ...] [LIMIT n] [OFFSET n]
/// ```
pub struct SelectBuilder<P> {
    catalog: Option<String>,
    table: TableInfo,
    filters: Vec<FilterExpr<P>>,
    group_by: Vec<String>,
    having: Vec<FilterExpr<P>>,
    order_by: Vec<OrderExpr>,
    limit: Option<usize>,
    offset: Option<usize>,
    snapshot: Option<SnapshotRef>,
}

impl<P> View for SelectBuilder<P> {
    type V = SelectParts<P>;

    closed spec fn view(&self) -> SelectParts<P> {
        SelectParts {
            catalog: opt_view(self.catalog),
            schema: self.table.schema@,
            table: self.table.table@,
            columns: views(self.table.columns@),
            filters: self.filters@,
            group_by: views(self.group_by@),
            having: self.having@,
            order_by: self.order_by@,
            limit: self.limit,
            offset: self.offset,
            snapshot: self.snapshot,
        }
    }
}

/// The `AT (...)` clause of a time travel reference.
pub open spec fn at_pieces(s: Option<SnapshotRef>) -> Seq<Piece> {
    match s {
        Some(SnapshotRef::Version(v)) => seq![
            Piece::Text(" AT (VERSION => "@),
            Piece::Text(decimal(v as nat)),
            Piece::Text(")"@),
        ],
        Some(SnapshotRef::Timestamp(ts)) => seq![
            Piece::Text(" AT (TIMESTAMP => '"@),
            Piece::Text(escaped(ts@)),
            Piece::Text("')"@),
        ],
        None => Seq::empty(),
    }
}

/// One `ORDER BY` term.
pub open spec fn order_term(o: OrderExpr) -> Seq<Piece> {
    seq![
        Piece::Text(o.column@),
        Piece::Text(
            match o.dir {
                OrderDir::Asc => " ASC"@,
                OrderDir::Desc => " DESC"@,
            },
        ),
    ]
}

/// `ORDER BY` terms separated by `, `.
pub open spec fn order_pieces(os: Seq<OrderExpr>) -> Seq<Piece>
    decreases os.len(),
{
    if os.len() == 0 {
        Seq::empty()
    } else if os.len() == 1 {
        order_term(os[0])
    } else {
        order_pieces(os.drop_last()) + seq![Piece::Text(", "@)] + order_term(os.last())
    }
}

/// `prefix` followed by `body`, or nothing when `present` is false.
pub open spec fn clause(present: bool, prefix: Seq<char>, body: Seq<Piece>) -> Seq<Piece> {
    if present {
        seq![Piece::Text(prefix)] + body
    } else {
        Seq::empty()
    }
}

/// ` <word> n`, or nothing.
pub open spec fn number_clause(n: Option<usize>, word: Seq<char>) -> Seq<Piece> {
    match n {
        Some(k) => seq![Piece::Text(word), Piece::Text(decimal(k as nat))],
        None => Seq::empty(),
    }
}

/// `[WHERE ...]` over the builder's filters, placeholders from `$1`.
pub open spec fn where_clause<P>(m: SelectParts<P>) -> Seq<Piece> {
    clause(m.filters.len() > 0, " WHERE "@, where_pieces(m.filters, 1))
}

/// The SELECT statement the builder stands for.
pub open spec fn select_pieces<P>(m: SelectParts<P>) -> Seq<Piece> {
    seq![Piece::Text("SELECT "@)] + join_pieces(m.columns, ", "@) + seq![
        Piece::Text(" FROM "@),
        Piece::Text(table_ref_text(m.catalog, m.schema, m.table)),
    ] + at_pieces(m.snapshot) + where_clause(m) + clause(
        m.group_by.len() > 0,
        " GROUP BY "@,
        join_pieces(m.group_by, ", "@),
    ) + clause(
        m.having.len() > 0,
        " HAVING "@,
        where_pieces(m.having, 1 + filters_values(m.filters).len()),
    ) + clause(m.order_by.len() > 0, " ORDER BY "@, order_pieces(m.order_by)) + number_clause(
        m.limit,
        " LIMIT "@,
    ) + number_clause(m.offset, " OFFSET "@)
}

/// The values the SELECT statement binds: those of the `WHERE` predicates,
/// then those of the `HAVING` predicates.
pub open spec fn select_values<P>(m: SelectParts<P>) -> Seq<P> {
    filters_values(m.filters) + filters_values(m.having)
}

/// The SQL name of an aggregate function.
pub open spec fn aggregate_name(a: Aggregate) -> Seq<char> {
    match a {
        Aggregate::Sum => "SUM"@,
        Aggregate::Avg => "AVG"@,
        Aggregate::Min => "MIN"@,
        Aggregate::Max => "MAX"@,
    }
}

/// `SELECT <expr> FROM table [WHERE ...]`: only the `WHERE` predicates of the
/// builder take part; ordering, grouping, paging and time travel do not.
pub open spec fn scalar_pieces<P>(m: SelectParts<P>, expr: Seq<char>) -> Seq<Piece> {
    seq![
        Piece::Text("SELECT "@),
        Piece::Text(expr),
        Piece::Text(" FROM "@),
        Piece::Text(table_ref_text(m.catalog, m.schema, m.table)),
    ] + where_clause(m)
}

/// `AGG(column)`
pub open spec fn aggregate_expr(a: Aggregate, column: Seq<char>) -> Seq<char> {
    aggregate_name(a) + "("@ + column + ")"@
}

impl<P> SelectBuilder<P> {
    /// A builder selecting every column of `table` (qualified by `catalog`
    /// when a DuckLake catalog is attached), with no clause.
    pub fn new(catalog: Option<String>, table: TableInfo) -> (b: SelectBuilder<P>)
        ensures
            b@ == (SelectParts::<P> {
                catalog: opt_view(catalog),
                schema: table.schema@,
                table: table.table@,
                columns: views(table.columns@),
                filters: Seq::empty(),
                group_by: Seq::empty(),
                having: Seq::empty(),
                order_by: Seq::empty(),
                limit: None,
                offset: None,
                snapshot: None,
            }),
    {
        let b = SelectBuilder {
            catalog,
            table,
            filters: Vec::new(),
            group_by: Vec::new(),
            having: Vec::new(),
            order_by: Vec::new(),
            limit: None,
            offset: None,
            snapshot: None,
        };
        proof {
            assert(views(b.group_by@) =~= Seq::<Seq<char>>::empty());
        }
        b
    }

    /// Adds a `WHERE` predicate; several are AND-ed together.
    pub fn filter(self, expr: FilterExpr<P>) -> (b: SelectBuilder<P>)
        ensures
            b@ == (SelectParts { filters: self@.filters.push(expr), ..self@ }),
    {
        let mut s = self;
        s.filters.push(expr);
        s
    }

    /// Adds a `GROUP BY` column; several are listed in call order.
    pub fn group_by(self, column: &str) -> (b: SelectBuilder<P>)
        ensures
            b@ == (SelectParts { group_by: self@.group_by.push(column@), ..self@ }),
    {
        let mut s = self;
        s.group_by.push(column.to_owned());
        proof {
            assert(views(s.group_by@) =~= views(self.group_by@).push(column@));
        }
        s
    }

    /// Adds a `HAVING` predicate; several are AND-ed together.
    pub fn having(self, expr: FilterExpr<P>) -> (b: SelectBuilder<P>)
        ensures
            b@ == (SelectParts { having: self@.having.push(expr), ..self@ }),
    {
        let mut s = self;
        s.having.push(expr);
        s
    }

    /// Adds an `ORDER BY` term; several are listed in call order.
    pub fn order_by(self, expr: OrderExpr) -> (b: SelectBuilder<P>)
        ensures
            b@ == (SelectParts { order_by: self@.order_by.push(expr), ..self@ }),
    {
        let mut s = self;
        s.order_by.push(expr);
        s
    }

    /// Limits the number of rows returned.
    pub fn limit(self, n: usize) -> (b: SelectBuilder<P>)
        ensures
            b@ == (SelectParts { limit: Some(n), ..self@ }),
    {
        let mut s = self;
        s.limit = Some(n);
        s
    }

    /// Skips the first `n` rows.
    pub fn offset(self, n: usize) -> (b: SelectBuilder<P>)
        ensures
            b@ == (SelectParts { offset: Some(n), ..self@ }),
    {
        let mut s = self;
        s.offset = Some(n);
        s
    }

    /// Reads the table at DuckLake snapshot `version`.
    pub fn at_snapshot(self, version: u64) -> (b: SelectBuilder<P>)
        ensures
            b@ == (SelectParts { snapshot: Some(SnapshotRef::Version(version)), ..self@ }),
    {
        let mut s = self;
        s.snapshot = Some(SnapshotRef::Version(version));
        s
    }

    /// Reads the table as it was at the point in time `ts`.
    pub fn at_timestamp(self, ts: &str) -> (b: SelectBuilder<P>)
        ensures
            b@.snapshot matches Some(SnapshotRef::Timestamp(t)) && t@ == ts@,
            b@ == (SelectParts { snapshot: b@.snapshot, ..self@ }),
    {
        let mut s = self;
        s.snapshot = Some(SnapshotRef::Timestamp(ts.to_owned()));
        s
    }

    fn write_table(&self, w: &mut SqlWriter)
        ensures
            final(w)@ == old(w)@.push(
                Piece::Text(table_ref_text(self@.catalog, self@.schema, self@.table)),
            ),
    {
        let t = table_ref_of(&self.catalog, &self.table);
        w.text(t.as_str());
    }

    /// The SELECT statement and the values it binds, `$1` first.
    pub fn build(self) -> (r: (String, Vec<P>))
        ensures
            r.0@ == render(select_pieces(self@)),
            r.1@ == select_values(self@),
    {
        let ghost m = self@;
        let mut w = SqlWriter::new();
        let mut params: Vec<P> = Vec::new();
        w.text("SELECT ");
        write_joined(&mut w, &self.table.columns, ", ");
        assert(w@ =~= seq![Piece::Text("SELECT "@)] + join_pieces(m.columns, ", "@));
        w.text(" FROM ");
        self.write_table(&mut w);
        assert(w@ =~= seq![Piece::Text("SELECT "@)] + join_pieces(m.columns, ", "@) + seq![
            Piece::Text(" FROM "@),
            Piece::Text(table_ref_text(m.catalog, m.schema, m.table)),
        ]);
        write_at(&mut w, &self.snapshot);
        let SelectBuilder { catalog, table, filters, group_by, having, order_by, limit, offset, snapshot } = self;
        write_filter_clause(&mut w, filters, &mut params, " WHERE ");
        write_joined_clause(&mut w, &group_by, " GROUP BY ");
        write_filter_clause(&mut w, having, &mut params, " HAVING ");
        write_order_clause(&mut w, &order_by);
        write_number_clause(&mut w, limit, " LIMIT ");
        write_number_clause(&mut w, offset, " OFFSET ");
        assert(params@ =~= select_values(m));
        (w.finish(), params)
    }

    fn build_scalar(self, expr: &str) -> (r: (String, Vec<P>))
        ensures
            r.0@ == render(scalar_pieces(self@, expr@)),
            r.1@ == filters_values(self@.filters),
    {
        let ghost m = self@;
        let mut w = SqlWriter::new();
        let mut params: Vec<P> = Vec::new();
        w.text("SELECT ");
        w.text(expr);
        w.text(" FROM ");
        self.write_table(&mut w);
        assert(w@ =~= seq![
            Piece::Text("SELECT "@),
            Piece::Text(expr@),
            Piece::Text(" FROM "@),
            Piece::Text(table_ref_text(m.catalog, m.schema, m.table)),
        ]);
        let SelectBuilder { catalog, table, filters, group_by, having, order_by, limit, offset, snapshot } = self;
        write_filter_clause(&mut w, filters, &mut params, " WHERE ");
        assert(params@ =~= filters_values(m.filters));
        (w.finish(), params)
    }

    /// `SELECT AGG(column) FROM ... [WHERE ...]` and the values it binds.
    pub fn aggregate(self, func: Aggregate, column: ColumnExpr) -> (r: (String, Vec<P>))
        ensures
            r.0@ == render(scalar_pieces(self@, aggregate_expr(func, column.name@))),
            r.1@ == filters_values(self@.filters),
    {
        let mut e = String::new();
        let name: &str = match func {
            Aggregate::Sum => "SUM",
            Aggregate::Avg => "AVG",
            Aggregate::Min => "MIN",
            Aggregate::Max => "MAX",
        };
        crate::text::push_str(&mut e, name);
        crate::text::push_str(&mut e, "(");
        crate::text::push_str(&mut e, column.name.as_str());
        crate::text::push_str(&mut e, ")");
        assert(e@ =~= aggregate_expr(func, column.name@));
        self.build_scalar(e.as_str())
    }

    /// `SELECT COUNT(*) FROM ... [WHERE ...]` and the values it binds.
    pub fn count(self) -> (r: (String, Vec<P>))
        ensures
            r.0@ == render(scalar_pieces(self@, "COUNT(*)"@)),
            r.1@ == filters_values(self@.filters),
    {
        self.build_scalar("COUNT(*)")
    }
}

fn write_at(w: &mut SqlWriter, snapshot: &Option<SnapshotRef>)
    ensures
        final(w)@ == old(w)@ + at_pieces(*snapshot),
{
    match snapshot {
        Some(SnapshotRef::Version(v)) => {
            w.text(" AT (VERSION => ");
            w.number(*v);
            w.text(")");
        },
        Some(SnapshotRef::Timestamp(ts)) => {
            let e = escape_sql_string(ts.as_str());
            w.text(" AT (TIMESTAMP => '");
            w.text(e.as_str());
            w.text("')");
        },
        None => {},
    }
    assert(w@ =~= old(w)@ + at_pieces(*snapshot));
}

fn write_filter_clause<P>(
    w: &mut SqlWriter,
    filters: Vec<FilterExpr<P>>,
    params: &mut Vec<P>,
    prefix: &str,
)
    ensures
        final(w)@ == old(w)@ + clause(
            filters@.len() > 0,
            prefix@,
            where_pieces(filters@, old(params)@.len() + 1),
        ),
        final(params)@ == old(params)@ + filters_values(filters@),
{
    if filters.len() > 0 {
        w.text(prefix);
        write_where(filters, w, params);
        assert(w@ =~= old(w)@ + clause(
            true,
            prefix@,
            where_pieces(filters@, old(params)@.len() + 1),
        ));
    } else {
        assert(w@ =~= old(w)@ + Seq::<Piece>::empty());
        assert(filters_values(filters@) =~= Seq::<P>::empty());
        assert(params@ =~= old(params)@ + Seq::<P>::empty());
    }
}

fn write_joined_clause(w: &mut SqlWriter, items: &Vec<String>, prefix: &str)
    ensures
        final(w)@ == old(w)@ + clause(
            items@.len() > 0,
            prefix@,
            join_pieces(views(items@), ", "@),
        ),
{
    if items.len() > 0 {
        w.text(prefix);
        write_joined(w, items, ", ");
        assert(w@ =~= old(w)@ + clause(
            true,
            prefix@,
            join_pieces(views(items@), ", "@),
        ));
    } else {
        assert(w@ =~= old(w)@ + Seq::<Piece>::empty());
    }
}

fn write_order_clause(w: &mut SqlWriter, os: &Vec<OrderExpr>)
    ensures
        final(w)@ == old(w)@ + clause(os@.len() > 0, " ORDER BY "@, order_pieces(os@)),
{
    if os.len() > 0 {
        w.text(" ORDER BY ");
        write_order(w, os);
        assert(w@ =~= old(w)@ + clause(true, " ORDER BY "@, order_pieces(os@)));
    } else {
        assert(w@ =~= old(w)@ + Seq::<Piece>::empty());
    }
}

fn write_number_clause(w: &mut SqlWriter, n: Option<usize>, word: &str)
    ensures
        final(w)@ == old(w)@ + number_clause(n, word@),
{
    match n {
        Some(k) => {
            w.text(word);
            w.number(k as u64);
            assert(w@ =~= old(w)@ + number_clause(n, word@));
        },
        None => {
            assert(w@ =~= old(w)@ + Seq::<Piece>::empty());
        },
    }
}

fn write_order(w: &mut SqlWriter, os: &Vec<OrderExpr>)
    ensures
        final(w)@ == old(w)@ + order_pieces(os@),
{
    let ghost base = w@;
    let mut i: usize = 0;
    while i < os.len()
        invariant
            i <= os.len(),
            w@ == base + order_pieces(os@.take(i as int)),
        decreases os.len() - i,
    {
        if i > 0 {
            w.text(", ");
        }
        let o = &os[i];
        w.text(o.column.as_str());
        match o.dir {
            OrderDir::Asc => w.text(" ASC"),
            OrderDir::Desc => w.text(" DESC"),
        }
        proof {
            let t = os@.take(i + 1);
            assert(t.drop_last() =~= os@.take(i as int));
            assert(t.last() == os@[i as int]);
            if i == 0 {
                assert(t =~= seq![os@[0]]);
            }
            assert(w@ =~= base + order_pieces(t));
        }
        i = i + 1;
    }
    proof {
        assert(os@.take(os@.len() as int) =~= os@);
    }
}

proof fn lemma_order_text(os: Seq<OrderExpr>)
    ensures
        all_text(order_pieces(os)),
    decreases os.len(),
{
    if os.len() == 1 {
        assert(all_text(order_term(os[0])));
    } else if os.len() > 1 {
        lemma_order_text(os.drop_last());
        assert(all_text(seq![Piece::Text(", "@)]));
        assert(all_text(order_term(os.last())));
        lemma_all_text_concat(order_pieces(os.drop_last()), seq![Piece::Text(", "@)]);
        lemma_all_text_concat(
            order_pieces(os.drop_last()) + seq![Piece::Text(", "@)],
            order_term(os.last()),
        );
    }
}

proof fn lemma_clause_placeholders(present: bool, prefix: Seq<char>, body: Seq<Piece>)
    ensures
        placeholders(clause(present, prefix, body)) == if present {
            placeholders(body)
        } else {
            Seq::<nat>::empty()
        },
{
    if present {
        let t = seq![Piece::Text(prefix)];
        assert(all_text(t));
        lemma_placeholders_text(t);
        lemma_placeholders_concat(t, body);
        assert(Seq::<nat>::empty() + placeholders(body) =~= placeholders(body));
    } else {
        lemma_placeholders_text(Seq::<Piece>::empty());
    }
}

proof fn lemma_text_clause(present: bool, prefix: Seq<char>, body: Seq<Piece>)
    requires
        all_text(body),
    ensures
        all_text(clause(present, prefix, body)),
{
    if present {
        assert(all_text(seq![Piece::Text(prefix)]));
        lemma_all_text_concat(seq![Piece::Text(prefix)], body);
    }
}

proof fn lemma_where_clause_placeholders<P>(m: SelectParts<P>)
    ensures
        placeholders(where_clause(m)) == consecutive(1, filters_values(m.filters).len()),
{
    lemma_clause_placeholders(m.filters.len() > 0, " WHERE "@, where_pieces(m.filters, 1));
    lemma_where_placeholders(m.filters, 1);
    if m.filters.len() == 0 {
        assert(filters_values(m.filters) =~= Seq::<P>::empty());
        assert(consecutive(1, 0) =~= Seq::<nat>::empty());
    }
}

/// Every SELECT statement numbers its placeholders `$1, $2, ...` in order of
/// appearance, one for each value it binds: the `k`-th value is bound to `$k`.
pub proof fn lemma_select_placeholders<P>(m: SelectParts<P>)
    ensures
        placeholders(select_pieces(m)) == consecutive(1, select_values(m).len()),
{
    let head = seq![Piece::Text("SELECT "@)] + join_pieces(m.columns, ", "@) + seq![
        Piece::Text(" FROM "@),
        Piece::Text(table_ref_text(m.catalog, m.schema, m.table)),
    ] + at_pieces(m.snapshot);
    let w = where_clause(m);
    let g = clause(m.group_by.len() > 0, " GROUP BY "@, join_pieces(m.group_by, ", "@));
    let nf = filters_values(m.filters).len();
    let h = clause(m.having.len() > 0, " HAVING "@, where_pieces(m.having, 1 + nf));
    let o = clause(m.order_by.len() > 0, " ORDER BY "@, order_pieces(m.order_by));
    let l = number_clause(m.limit, " LIMIT "@);
    let f = number_clause(m.offset, " OFFSET "@);
    assert(select_pieces(m) == head + w + g + h + o + l + f);
    // the literal parts
    lemma_join_text(m.columns, ", "@);
    lemma_join_text(m.group_by, ", "@);
    lemma_order_text(m.order_by);
    assert(all_text(seq![Piece::Text("SELECT "@)]));
    assert(all_text(seq![
        Piece::Text(" FROM "@),
        Piece::Text(table_ref_text(m.catalog, m.schema, m.table)),
    ]));
    assert(all_text(at_pieces(m.snapshot)));
    lemma_all_text_concat(seq![Piece::Text("SELECT "@)], join_pieces(m.columns, ", "@));
    lemma_all_text_concat(
        seq![Piece::Text("SELECT "@)] + join_pieces(m.columns, ", "@),
        seq![Piece::Text(" FROM "@), Piece::Text(table_ref_text(m.catalog, m.schema, m.table))],
    );
    lemma_all_text_concat(
        seq![Piece::Text("SELECT "@)] + join_pieces(m.columns, ", "@) + seq![
            Piece::Text(" FROM "@),
            Piece::Text(table_ref_text(m.catalog, m.schema, m.table)),
        ],
        at_pieces(m.snapshot),
    );
    lemma_placeholders_text(head);
    lemma_text_clause(m.group_by.len() > 0, " GROUP BY "@, join_pieces(m.group_by, ", "@));
    lemma_placeholders_text(g);
    lemma_text_clause(m.order_by.len() > 0, " ORDER BY "@, order_pieces(m.order_by));
    lemma_placeholders_text(o);
    assert(all_text(l));
    assert(all_text(f));
    lemma_placeholders_text(l);
    lemma_placeholders_text(f);
    // the placeholders
    lemma_where_clause_placeholders(m);
    lemma_clause_placeholders(m.having.len() > 0, " HAVING "@, where_pieces(m.having, 1 + nf));
    lemma_where_placeholders(m.having, 1 + nf);
    let nh = filters_values(m.having).len();
    if m.having.len() == 0 {
        assert(filters_values(m.having) =~= Seq::<P>::empty());
        assert(consecutive(1 + nf, 0) =~= Seq::<nat>::empty());
    }
    assert(placeholders(h) == consecutive(1 + nf, nh));
    lemma_placeholders_concat(head + w + g + h + o + l, f);
    lemma_placeholders_concat(head + w + g + h + o, l);
    lemma_placeholders_concat(head + w + g + h, o);
    lemma_placeholders_concat(head + w + g, h);
    lemma_placeholders_concat(head + w, g);
    lemma_placeholders_concat(head, w);
    lemma_consecutive_concat(1, nf, nh);
    let e = Seq::<nat>::empty();
    assert(e + consecutive(1, nf) + e + consecutive(1 + nf, nh) + e + e + e =~= consecutive(
        1,
        nf + nh,
    ));
}

/// A statement over the `WHERE` predicates alone (aggregates and counts)
/// numbers its placeholders `$1, $2, ...`, one for each value it binds.
pub proof fn lemma_scalar_placeholders<P>(m: SelectParts<P>, expr: Seq<char>)
    ensures
        placeholders(scalar_pieces(m, expr)) == consecutive(1, filters_values(m.filters).len()),
{
    let head = seq![
        Piece::Text("SELECT "@),
        Piece::Text(expr),
        Piece::Text(" FROM "@),
        Piece::Text(table_ref_text(m.catalog, m.schema, m.table)),
    ];
    assert(all_text(head));
    lemma_placeholders_text(head);
    lemma_placeholders_concat(head, where_clause(m));
    lemma_where_clause_placeholders(m);
    assert(Seq::<nat>::empty() + consecutive(1, filters_values(m.filters).len()) =~= consecutive(
        1,
        filters_values(m.filters).len(),
    ));
}

} // verus!
