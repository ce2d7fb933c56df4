//! The filter and ordering DSL: column handles, predicates and their SQL
//! rendering with numbered bind placeholders.
//!
//! Predicates are generic over the type `P` of the bound values; the
//! rendering never inspects a value, it only moves it, in order, into the
//! parameter list.

use vstd::prelude::*;

use crate::sql::{
    all_text, consecutive, lemma_consecutive_concat, lemma_placeholders_concat,
    lemma_placeholders_text, piece_text, placeholders, render, Piece, SqlWriter,
};
use crate::text::decimal;

verus! {

/// A handle on one column, the starting point of filter and ordering
/// expressions.
#[derive(Debug, Clone)]
pub struct ColumnExpr {
    /// The column name as written in SQL.
    pub name: String,
}

/// A comparison operator.
#[derive(Debug, Clone, Copy, PartialEq, Eq)]
pub enum CmpOp {
    /// `=`
    Eq,
    /// `!=`
    Ne,
    /// `>`
    Gt,
    /// `>=`
    Gte,
    /// `<`
    Lt,
    /// `<=`
    Lte,
    /// `LIKE`
    Like,
}

/// A predicate over the rows of a table, with values of type `P` to bind.
#[derive(Debug)]
pub enum FilterExpr<P> {
    /// `column <op> $n`
    Compare { column: String, op: CmpOp, value: P },
    /// `column BETWEEN $n AND $n+1`
    Between { column: String, low: P, high: P },
    /// `column IN ($n, ...)`, or `NOT IN` when `negated`.
    In { column: String, values: Vec<P>, negated: bool },
    /// `column IS NULL`
    IsNull { column: String },
    /// `column IS NOT NULL`
    IsNotNull { column: String },
    /// `(left AND right)`
    And(Box<FilterExpr<P>>, Box<FilterExpr<P>>),
    /// `(left OR right)`
    Or(Box<FilterExpr<P>>, Box<FilterExpr<P>>),
}

/// Sort direction.
#[derive(Debug, Clone, Copy, PartialEq, Eq)]
pub enum OrderDir {
    /// Ascending.
    Asc,
    /// Descending.
    Desc,
}

/// One `ORDER BY` term.
#[derive(Debug, Clone)]
pub struct OrderExpr {
    /// The column to sort by.
    pub column: String,
    /// The direction.
    pub dir: OrderDir,
}

impl ColumnExpr {
    /// A handle on the column called `name`.
    pub fn new(name: &str) -> (c: ColumnExpr)
        ensures
            c.name@ == name@,
    {
        ColumnExpr { name: name.to_owned() }
    }

    /// The operator `op` applied to this column and `value`.
    pub fn compare<P>(self, op: CmpOp, value: P) -> (f: FilterExpr<P>)
        ensures
            f == (FilterExpr::Compare { column: self.name, op, value }),
    {
        FilterExpr::Compare { column: self.name, op, value }
    }

    /// `column = value`
    pub fn eq<P>(self, value: P) -> (f: FilterExpr<P>)
        ensures
            f == (FilterExpr::Compare { column: self.name, op: CmpOp::Eq, value }),
    {
        self.compare(CmpOp::Eq, value)
    }

    /// `column != value`
    pub fn ne<P>(self, value: P) -> (f: FilterExpr<P>)
        ensures
            f == (FilterExpr::Compare { column: self.name, op: CmpOp::Ne, value }),
    {
        self.compare(CmpOp::Ne, value)
    }

    /// `column > value`
    pub fn gt<P>(self, value: P) -> (f: FilterExpr<P>)
        ensures
            f == (FilterExpr::Compare { column: self.name, op: CmpOp::Gt, value }),
    {
        self.compare(CmpOp::Gt, value)
    }

    /// `column >= value`
    pub fn gte<P>(self, value: P) -> (f: FilterExpr<P>)
        ensures
            f == (FilterExpr::Compare { column: self.name, op: CmpOp::Gte, value }),
    {
        self.compare(CmpOp::Gte, value)
    }

    /// `column < value`
    pub fn lt<P>(self, value: P) -> (f: FilterExpr<P>)
        ensures
            f == (FilterExpr::Compare { column: self.name, op: CmpOp::Lt, value }),
    {
        self.compare(CmpOp::Lt, value)
    }

    /// `column <= value`
    pub fn lte<P>(self, value: P) -> (f: FilterExpr<P>)
        ensures
            f == (FilterExpr::Compare { column: self.name, op: CmpOp::Lte, value }),
    {
        self.compare(CmpOp::Lte, value)
    }

    /// `column LIKE pattern`
    pub fn like<P>(self, pattern: P) -> (f: FilterExpr<P>)
        ensures
            f == (FilterExpr::Compare { column: self.name, op: CmpOp::Like, value: pattern }),
    {
        self.compare(CmpOp::Like, pattern)
    }

    /// `column BETWEEN low AND high`
    pub fn between<P>(self, low: P, high: P) -> (f: FilterExpr<P>)
        ensures
            f == (FilterExpr::Between { column: self.name, low, high }),
    {
        FilterExpr::Between { column: self.name, low, high }
    }

    /// `column IN (values...)`; no row matches an empty list.
    pub fn in_<P>(self, values: Vec<P>) -> (f: FilterExpr<P>)
        ensures
            f == (FilterExpr::In { column: self.name, values, negated: false }),
    {
        FilterExpr::In { column: self.name, values, negated: false }
    }

    /// `column NOT IN (values...)`; every row matches an empty list.
    pub fn not_in<P>(self, values: Vec<P>) -> (f: FilterExpr<P>)
        ensures
            f == (FilterExpr::In { column: self.name, values, negated: true }),
    {
        FilterExpr::In { column: self.name, values, negated: true }
    }

    /// `column IS NULL`
    pub fn is_null<P>(self) -> (f: FilterExpr<P>)
        ensures
            f == (FilterExpr::<P>::IsNull { column: self.name }),
    {
        FilterExpr::IsNull { column: self.name }
    }

    /// `column IS NOT NULL`
    pub fn is_not_null<P>(self) -> (f: FilterExpr<P>)
        ensures
            f == (FilterExpr::<P>::IsNotNull { column: self.name }),
    {
        FilterExpr::IsNotNull { column: self.name }
    }

    /// Ascending order on this column.
    pub fn asc(self) -> (o: OrderExpr)
        ensures
            o == (OrderExpr { column: self.name, dir: OrderDir::Asc }),
    {
        OrderExpr { column: self.name, dir: OrderDir::Asc }
    }

    /// Descending order on this column.
    pub fn desc(self) -> (o: OrderExpr)
        ensures
            o == (OrderExpr { column: self.name, dir: OrderDir::Desc }),
    {
        OrderExpr { column: self.name, dir: OrderDir::Desc }
    }
}

impl<P> FilterExpr<P> {
    /// Both predicates hold.
    pub fn and(self, other: FilterExpr<P>) -> (f: FilterExpr<P>)
        ensures
            f == FilterExpr::And(Box::new(self), Box::new(other)),
    {
        FilterExpr::And(Box::new(self), Box::new(other))
    }

    /// At least one predicate holds.
    pub fn or(self, other: FilterExpr<P>) -> (f: FilterExpr<P>)
        ensures
            f == FilterExpr::Or(Box::new(self), Box::new(other)),
    {
        FilterExpr::Or(Box::new(self), Box::new(other))
    }
}

/// The SQL text of a comparison operator, with the surrounding spaces.
pub open spec fn op_text(op: CmpOp) -> Seq<char> {
    match op {
        CmpOp::Eq => " = "@,
        CmpOp::Ne => " != "@,
        CmpOp::Gt => " > "@,
        CmpOp::Gte => " >= "@,
        CmpOp::Lt => " < "@,
        CmpOp::Lte => " <= "@,
        CmpOp::Like => " LIKE "@,
    }
}

fn op_str(op: CmpOp) -> (s: &'static str)
    ensures
        s@ == op_text(op),
{
    match op {
        CmpOp::Eq => " = ",
        CmpOp::Ne => " != ",
        CmpOp::Gt => " > ",
        CmpOp::Gte => " >= ",
        CmpOp::Lt => " < ",
        CmpOp::Lte => " <= ",
        CmpOp::Like => " LIKE ",
    }
}

/// The values a predicate binds, left to right.
pub open spec fn filter_values<P>(e: FilterExpr<P>) -> Seq<P>
    decreases e,
{
    match e {
        FilterExpr::Compare { value, .. } => seq![value],
        FilterExpr::Between { low, high, .. } => seq![low, high],
        FilterExpr::In { values, .. } => values@,
        FilterExpr::IsNull { .. } => Seq::empty(),
        FilterExpr::IsNotNull { .. } => Seq::empty(),
        FilterExpr::And(l, r) => filter_values(*l) + filter_values(*r),
        FilterExpr::Or(l, r) => filter_values(*l) + filter_values(*r),
    }
}

/// `$start, $start+1, ...` separated by `, `, `count` placeholders in all.
pub open spec fn list_pieces(start: nat, count: nat) -> Seq<Piece>
    decreases count,
{
    if count == 0 {
        Seq::empty()
    } else if count == 1 {
        seq![Piece::Param(start)]
    } else {
        list_pieces(start, (count - 1) as nat) + seq![
            Piece::Text(", "@),
            Piece::Param((start + count - 1) as nat),
        ]
    }
}

/// The SQL of a predicate whose first placeholder is numbered `next`.
pub open spec fn filter_pieces<P>(e: FilterExpr<P>, next: nat) -> Seq<Piece>
    decreases e,
{
    match e {
        FilterExpr::Compare { column, op, .. } => seq![
            Piece::Text(column@),
            Piece::Text(op_text(op)),
            Piece::Param(next),
        ],
        FilterExpr::Between { column, .. } => seq![
            Piece::Text(column@),
            Piece::Text(" BETWEEN "@),
            Piece::Param(next),
            Piece::Text(" AND "@),
            Piece::Param(next + 1),
        ],
        FilterExpr::In { column, values, negated } => if values@.len() == 0 {
            seq![Piece::Text(if negated { "1 = 1"@ } else { "1 = 0"@ })]
        } else {
            seq![
                Piece::Text(column@),
                Piece::Text(if negated { " NOT IN ("@ } else { " IN ("@ }),
            ] + list_pieces(next, values@.len()) + seq![Piece::Text(")"@)]
        },
        FilterExpr::IsNull { column } => seq![Piece::Text(column@), Piece::Text(" IS NULL"@)],
        FilterExpr::IsNotNull { column } => seq![
            Piece::Text(column@),
            Piece::Text(" IS NOT NULL"@),
        ],
        FilterExpr::And(l, r) => seq![Piece::Text("("@)] + filter_pieces(*l, next) + seq![
            Piece::Text(" AND "@),
        ] + filter_pieces(*r, next + filter_values(*l).len()) + seq![Piece::Text(")"@)],
        FilterExpr::Or(l, r) => seq![Piece::Text("("@)] + filter_pieces(*l, next) + seq![
            Piece::Text(" OR "@),
        ] + filter_pieces(*r, next + filter_values(*l).len()) + seq![Piece::Text(")"@)],
    }
}

/// The values a list of predicates binds, in order.
pub open spec fn filters_values<P>(fs: Seq<FilterExpr<P>>) -> Seq<P>
    decreases fs.len(),
{
    if fs.len() == 0 {
        Seq::empty()
    } else {
        filters_values(fs.drop_last()) + filter_values(fs.last())
    }
}

/// The predicates of `fs` joined by ` AND `, the first placeholder numbered `next`.
pub open spec fn where_pieces<P>(fs: Seq<FilterExpr<P>>, next: nat) -> Seq<Piece>
    decreases fs.len(),
{
    if fs.len() == 0 {
        Seq::empty()
    } else if fs.len() == 1 {
        filter_pieces(fs[0], next)
    } else {
        where_pieces(fs.drop_last(), next) + seq![Piece::Text(" AND "@)] + filter_pieces(
            fs.last(),
            next + filters_values(fs.drop_last()).len(),
        )
    }
}

/// A placeholder list numbers its placeholders consecutively.
pub proof fn lemma_list_placeholders(start: nat, count: nat)
    ensures
        placeholders(list_pieces(start, count)) == consecutive(start, count),
    decreases count,
{
    if count == 0 {
        assert(consecutive(start, 0) =~= Seq::<nat>::empty());
    } else if count == 1 {
        let ps = seq![Piece::Param(start)];
        reveal_with_fuel(placeholders, 2);
        assert(ps.drop_last() =~= Seq::<Piece>::empty());
        assert(placeholders(ps) =~= seq![start]);
        assert(consecutive(start, 1) =~= seq![start]);
    } else {
        lemma_list_placeholders(start, (count - 1) as nat);
        let tail = seq![Piece::Text(", "@), Piece::Param((start + count - 1) as nat)];
        lemma_placeholders_concat(list_pieces(start, (count - 1) as nat), tail);
        assert(tail.drop_last() =~= seq![Piece::Text(", "@)]);
        assert(tail.drop_last().drop_last() =~= Seq::<Piece>::empty());
        reveal_with_fuel(placeholders, 3);
        assert(placeholders(tail) =~= seq![(start + count - 1) as nat]);
        assert(consecutive(start, (count - 1) as nat) + seq![(start + count - 1) as nat]
            =~= consecutive(start, count));
    }
}

/// Pieces of literal text around a middle part do not change its placeholders.
proof fn lemma_wrapped_placeholders(a: Seq<Piece>, m: Seq<Piece>, b: Seq<Piece>)
    requires
        all_text(a),
        all_text(b),
    ensures
        placeholders(a + m + b) == placeholders(m),
{
    lemma_placeholders_concat(a + m, b);
    lemma_placeholders_concat(a, m);
    lemma_placeholders_text(a);
    lemma_placeholders_text(b);
    assert(Seq::<nat>::empty() + placeholders(m) + Seq::<nat>::empty() =~= placeholders(m));
}

/// A predicate numbers its placeholders consecutively from `next`, one for
/// each value it binds, in the order of the values.
pub proof fn lemma_filter_placeholders<P>(e: FilterExpr<P>, next: nat)
    ensures
        placeholders(filter_pieces(e, next)) == consecutive(next, filter_values(e).len()),
    decreases e,
{
    let ps = filter_pieces(e, next);
    match e {
        FilterExpr::Compare { column, op, .. } => {
            let a = seq![Piece::Text(column@), Piece::Text(op_text(op))];
            assert(all_text(a));
            assert(ps =~= a + seq![Piece::Param(next)] + Seq::<Piece>::empty());
            lemma_wrapped_placeholders(a, seq![Piece::Param(next)], Seq::empty());
            lemma_list_placeholders(next, 1);
            assert(list_pieces(next, 1) == seq![Piece::Param(next)]);
        },
        FilterExpr::Between { column, .. } => {
            let a = seq![Piece::Text(column@), Piece::Text(" BETWEEN "@)];
            let m = seq![Piece::Param(next), Piece::Text(" AND "@), Piece::Param(next + 1)];
            assert(all_text(a));
            assert(ps =~= a + m + Seq::<Piece>::empty());
            lemma_wrapped_placeholders(a, m, Seq::empty());
            assert(m.drop_last() =~= seq![Piece::Param(next), Piece::Text(" AND "@)]);
            assert(m.drop_last().drop_last() =~= seq![Piece::Param(next)]);
            assert(m.drop_last().drop_last().drop_last() =~= Seq::<Piece>::empty());
            reveal_with_fuel(placeholders, 4);
            assert(placeholders(m) =~= seq![next, next + 1]);
            assert(consecutive(next, 2) =~= seq![next, next + 1]);
        },
        FilterExpr::In { column, values, negated } => {
            if values@.len() == 0 {
                let a = seq![Piece::Text(if negated { "1 = 1"@ } else { "1 = 0"@ })];
                assert(all_text(a));
                lemma_placeholders_text(a);
                assert(consecutive(next, 0) =~= Seq::<nat>::empty());
            } else {
                let a = seq![
                    Piece::Text(column@),
                    Piece::Text(if negated { " NOT IN ("@ } else { " IN ("@ }),
                ];
                let b = seq![Piece::Text(")"@)];
                assert(all_text(a));
                assert(all_text(b));
                lemma_wrapped_placeholders(a, list_pieces(next, values@.len()), b);
                lemma_list_placeholders(next, values@.len());
            }
        },
        FilterExpr::IsNull { column } => {
            let a = seq![Piece::Text(column@), Piece::Text(" IS NULL"@)];
            assert(all_text(a));
            lemma_placeholders_text(a);
            assert(consecutive(next, 0) =~= Seq::<nat>::empty());
        },
        FilterExpr::IsNotNull { column } => {
            let a = seq![Piece::Text(column@), Piece::Text(" IS NOT NULL"@)];
            assert(all_text(a));
            lemma_placeholders_text(a);
            assert(consecutive(next, 0) =~= Seq::<nat>::empty());
        },
        FilterExpr::And(l, r) => {
            lemma_filter_placeholders(*l, next);
            lemma_filter_placeholders(*r, next + filter_values(*l).len());
            lemma_junction_placeholders(
                filter_pieces(*l, next),
                filter_pieces(*r, next + filter_values(*l).len()),
                " AND "@,
                next,
                filter_values(*l).len(),
                filter_values(*r).len(),
            );
        },
        FilterExpr::Or(l, r) => {
            lemma_filter_placeholders(*l, next);
            lemma_filter_placeholders(*r, next + filter_values(*l).len());
            lemma_junction_placeholders(
                filter_pieces(*l, next),
                filter_pieces(*r, next + filter_values(*l).len()),
                " OR "@,
                next,
                filter_values(*l).len(),
                filter_values(*r).len(),
            );
        },
    }
}

proof fn lemma_junction_placeholders(
    pl: Seq<Piece>,
    pr: Seq<Piece>,
    word: Seq<char>,
    next: nat,
    nl: nat,
    nr: nat,
)
    requires
        placeholders(pl) == consecutive(next, nl),
        placeholders(pr) == consecutive(next + nl, nr),
    ensures
        placeholders(
            seq![Piece::Text("("@)] + pl + seq![Piece::Text(word)] + pr + seq![Piece::Text(")"@)],
        ) == consecutive(next, nl + nr),
{
    let open = seq![Piece::Text("("@)];
    let mid = seq![Piece::Text(word)];
    let close = seq![Piece::Text(")"@)];
    assert(all_text(open));
    assert(all_text(mid));
    assert(all_text(close));
    lemma_placeholders_concat(open + pl + mid + pr, close);
    lemma_placeholders_concat(open + pl + mid, pr);
    lemma_placeholders_concat(open + pl, mid);
    lemma_placeholders_concat(open, pl);
    lemma_placeholders_text(open);
    lemma_placeholders_text(mid);
    lemma_placeholders_text(close);
    lemma_consecutive_concat(next, nl, nr);
    assert(Seq::<nat>::empty() + placeholders(pl) + Seq::<nat>::empty() + placeholders(pr)
        + Seq::<nat>::empty() =~= placeholders(pl) + placeholders(pr));
}

/// A list of predicates joined by ` AND ` numbers its placeholders
/// consecutively from `next`, one for each value it binds.
pub proof fn lemma_where_placeholders<P>(fs: Seq<FilterExpr<P>>, next: nat)
    ensures
        placeholders(where_pieces(fs, next)) == consecutive(next, filters_values(fs).len()),
    decreases fs.len(),
{
    if fs.len() == 0 {
        assert(consecutive(next, 0) =~= Seq::<nat>::empty());
    } else if fs.len() == 1 {
        lemma_filter_placeholders(fs[0], next);
        assert(fs.drop_last() =~= Seq::<FilterExpr<P>>::empty());
        assert(fs.last() == fs[0]);
        assert(filters_values(fs.drop_last()) =~= Seq::<P>::empty());
        assert(filters_values(fs) =~= Seq::<P>::empty() + filter_values(fs[0]));
    } else {
        let init = fs.drop_last();
        let n0 = filters_values(init).len();
        lemma_where_placeholders(init, next);
        lemma_filter_placeholders(fs.last(), next + n0);
        let mid = seq![Piece::Text(" AND "@)];
        assert(all_text(mid));
        lemma_placeholders_text(mid);
        lemma_placeholders_concat(where_pieces(init, next) + mid, filter_pieces(fs.last(), next + n0));
        lemma_placeholders_concat(where_pieces(init, next), mid);
        lemma_consecutive_concat(next, n0, filter_values(fs.last()).len());
        assert(placeholders(where_pieces(init, next)) + Seq::<nat>::empty() =~= placeholders(
            where_pieces(init, next),
        ));
    }
}

/// Writes predicate `e`, binding its values after those already in `params`.
pub fn write_filter<P>(e: FilterExpr<P>, w: &mut SqlWriter, params: &mut Vec<P>)
    ensures
        final(w)@ == old(w)@ + filter_pieces(e, old(params)@.len() + 1),
        final(params)@ == old(params)@ + filter_values(e),
    decreases e,
{
    let ghost next: nat = params@.len() + 1;
    let ghost base = w@;
    let ghost e0 = e;
    match e {
        FilterExpr::Compare { column, op, value } => {
            w.text(column.as_str());
            w.text(op_str(op));
            params.push(value);
            w.param(params.len() as u64);
            assert(w@ =~= base + filter_pieces(e0, next));
        },
        FilterExpr::Between { column, low, high } => {
            w.text(column.as_str());
            w.text(" BETWEEN ");
            params.push(low);
            w.param(params.len() as u64);
            w.text(" AND ");
            params.push(high);
            w.param(params.len() as u64);
            assert(w@ =~= base + filter_pieces(e0, next));
        },
        FilterExpr::In { column, values, negated } => {
            if values.len() == 0 {
                if negated {
                    w.text("1 = 1");
                } else {
                    w.text("1 = 0");
                }
                assert(w@ =~= base + filter_pieces(e0, next));
                assert(params@ =~= old(params)@ + filter_values(e0));
            } else {
                w.text(column.as_str());
                if negated {
                    w.text(" NOT IN (");
                } else {
                    w.text(" IN (");
                }
                let ghost head = w@;
                let ghost vs = values@;
                let mut rest = values;
                let mut i: usize = 0;
                let count = rest.len();
                while i < count
                    invariant
                        count == vs.len(),
                        i <= count,
                        rest@ == vs.skip(i as int),
                        params@ == old(params)@ + vs.take(i as int),
                        w@ == head + list_pieces(next, i as nat),
                        next == old(params)@.len() + 1,
                    decreases count - i,
                {
                    if i > 0 {
                        w.text(", ");
                    }
                    let v = rest.remove(0);
                    params.push(v);
                    w.param(params.len() as u64);
                    proof {
                        assert(vs.take(i + 1) =~= vs.take(i as int).push(vs[i as int]));
                        assert(rest@ =~= vs.skip(i + 1));
                        if i == 0 {
                            assert(w@ =~= head + list_pieces(next, 1));
                        } else {
                            assert(w@ =~= head + list_pieces(next, (i + 1) as nat));
                        }
                    }
                    i = i + 1;
                }
                w.text(")");
                proof {
                    assert(vs.take(count as int) =~= vs);
                    assert(w@ =~= base + filter_pieces(e0, next));
                }
            }
        },
        FilterExpr::IsNull { column } => {
            w.text(column.as_str());
            w.text(" IS NULL");
            assert(w@ =~= base + filter_pieces(e0, next));
            assert(params@ =~= old(params)@ + filter_values(e0));
        },
        FilterExpr::IsNotNull { column } => {
            w.text(column.as_str());
            w.text(" IS NOT NULL");
            assert(w@ =~= base + filter_pieces(e0, next));
            assert(params@ =~= old(params)@ + filter_values(e0));
        },
        FilterExpr::And(l, r) => {
            w.text("(");
            write_filter(*l, w, params);
            w.text(" AND ");
            write_filter(*r, w, params);
            w.text(")");
            assert(w@ =~= base + filter_pieces(e0, next));
            assert(params@ =~= old(params)@ + filter_values(e0));
        },
        FilterExpr::Or(l, r) => {
            w.text("(");
            write_filter(*l, w, params);
            w.text(" OR ");
            write_filter(*r, w, params);
            w.text(")");
            assert(w@ =~= base + filter_pieces(e0, next));
            assert(params@ =~= old(params)@ + filter_values(e0));
        },
    }
}

/// Writes the predicates of `filters` joined by ` AND `, binding their values
/// after those already in `params`.
pub fn write_where<P>(filters: Vec<FilterExpr<P>>, w: &mut SqlWriter, params: &mut Vec<P>)
    ensures
        final(w)@ == old(w)@ + where_pieces(filters@, old(params)@.len() + 1),
        final(params)@ == old(params)@ + filters_values(filters@),
{
    let ghost fs = filters@;
    let ghost next: nat = params@.len() + 1;
    let ghost base = w@;
    let mut rest = filters;
    let count = rest.len();
    let mut i: usize = 0;
    while i < count
        invariant
            count == fs.len(),
            i <= count,
            rest@ == fs.skip(i as int),
            params@ == old(params)@ + filters_values(fs.take(i as int)),
            w@ == base + where_pieces(fs.take(i as int), next),
            next == old(params)@.len() + 1,
        decreases count - i,
    {
        if i > 0 {
            w.text(" AND ");
        }
        let f = rest.remove(0);
        proof {
            assert(f == fs[i as int]);
            assert(rest@ =~= fs.skip(i + 1));
        }
        let ghost before = w@;
        let ghost pbefore = params@;
        write_filter(f, w, params);
        proof {
            let t = fs.take(i + 1);
            assert(t.drop_last() =~= fs.take(i as int));
            assert(t.last() == fs[i as int]);
            assert(params@ =~= old(params)@ + filters_values(t));
            if i == 0 {
                assert(fs.take(0) =~= Seq::<FilterExpr<P>>::empty());
                assert(t[0] == fs[0]);
                assert(w@ =~= base + where_pieces(t, next));
            } else {
                assert(w@ =~= base + where_pieces(t, next));
            }
        }
        i = i + 1;
    }
    proof {
        assert(fs.take(count as int) =~= fs);
    }
}

/// The SQL operator each comparison stands for, as written in SQL.
pub open spec fn sql_operator(op: CmpOp) -> Seq<char> {
    match op {
        CmpOp::Eq => "="@,
        CmpOp::Ne => "!="@,
        CmpOp::Gt => ">"@,
        CmpOp::Gte => ">="@,
        CmpOp::Lt => "<"@,
        CmpOp::Lte => "<="@,
        CmpOp::Like => "LIKE"@,
    }
}

/// A comparison renders as `column <op> $n`: the column, the SQL operator
/// of the comparison between single spaces, and the placeholder of its value
/// (`<` for `lt`, `<=` for `lte`, `>` for `gt`, `>=` for `gte`, `=` for
/// `eq`, `!=` for `ne`, `LIKE` for `like`).
pub proof fn lemma_comparison_sql<P>(column: String, op: CmpOp, value: P, next: nat)
    ensures
        render(filter_pieces(FilterExpr::Compare { column, op, value }, next)) == column@ + " "@
            + sql_operator(op) + " "@ + seq!['$'] + decimal(next),
{
    reveal_strlit(" = ");
    reveal_strlit(" != ");
    reveal_strlit(" > ");
    reveal_strlit(" >= ");
    reveal_strlit(" < ");
    reveal_strlit(" <= ");
    reveal_strlit(" LIKE ");
    reveal_strlit("=");
    reveal_strlit("!=");
    reveal_strlit(">");
    reveal_strlit(">=");
    reveal_strlit("<");
    reveal_strlit("<=");
    reveal_strlit("LIKE");
    reveal_strlit(" ");
    let ps = filter_pieces(FilterExpr::Compare { column, op, value }, next);
    assert(ps.drop_last().drop_last().drop_last() =~= Seq::<Piece>::empty());
    reveal_with_fuel(render, 4);
    assert(op_text(op) =~= " "@ + sql_operator(op) + " "@);
    assert(render(ps) =~= column@ + op_text(op) + (seq!['$'] + decimal(next)));
    assert(column@ + " "@ + sql_operator(op) + " "@ + seq!['$'] + decimal(next) =~= column@ + op_text(op)
        + (seq!['$'] + decimal(next)));
}

/// Different comparisons render different operators: no two comparisons
/// share their SQL text.
pub proof fn lemma_comparison_operators_distinct(a: CmpOp, b: CmpOp)
    requires
        a != b,
    ensures
        op_text(a) != op_text(b),
        sql_operator(a) != sql_operator(b),
{
    reveal_strlit(" = ");
    reveal_strlit(" != ");
    reveal_strlit(" > ");
    reveal_strlit(" >= ");
    reveal_strlit(" < ");
    reveal_strlit(" <= ");
    reveal_strlit(" LIKE ");
    reveal_strlit("=");
    reveal_strlit("!=");
    reveal_strlit(">");
    reveal_strlit(">=");
    reveal_strlit("<");
    reveal_strlit("<=");
    reveal_strlit("LIKE");
    if op_text(a) == op_text(b) {
        assert(op_text(a).len() == op_text(b).len());
        assert(op_text(a)[1] == op_text(b)[1]);
        assert(op_text(a)[2] == op_text(b)[2]);
    }
    if sql_operator(a) == sql_operator(b) {
        assert(sql_operator(a).len() == sql_operator(b).len());
        assert(sql_operator(a)[0] == sql_operator(b)[0]);
    }
}

proof fn lemma_render_append(a: Seq<Piece>, b: Seq<Piece>)
    ensures
        render(a + b) == render(a) + render(b),
    decreases b.len(),
{
    if b.len() == 0 {
        assert(a + b =~= a);
        assert(render(a) + render(b) =~= render(a));
    } else {
        lemma_render_append(a, b.drop_last());
        assert((a + b).drop_last() =~= a + b.drop_last());
        assert((a + b).last() == b.last());
        assert(render(a) + (render(b.drop_last()) + piece_text(b.last())) =~= (render(a) + render(
            b.drop_last(),
        )) + piece_text(b.last()));
    }
}

proof fn lemma_render_text(t: Seq<char>)
    ensures
        render(seq![Piece::Text(t)]) == t,
{
    let ps = seq![Piece::Text(t)];
    assert(ps.drop_last() =~= Seq::<Piece>::empty());
    assert(render(ps.drop_last()) == Seq::<char>::empty());
    assert(Seq::<char>::empty() + t =~= t);
}

/// `BETWEEN` renders as `column BETWEEN $n AND $n+1`; `IS NULL` and
/// `IS NOT NULL` render after the column.
pub proof fn lemma_range_and_null_sql<P>(column: String, low: P, high: P, next: nat)
    ensures
        render(filter_pieces(FilterExpr::Between { column, low, high }, next)) == column@
            + " BETWEEN $"@ + decimal(next) + " AND $"@ + decimal(next + 1),
        render(filter_pieces(FilterExpr::<P>::IsNull { column }, next)) == column@ + " IS NULL"@,
        render(filter_pieces(FilterExpr::<P>::IsNotNull { column }, next)) == column@ + " IS NOT NULL"@,
{
    reveal_strlit(" BETWEEN ");
    reveal_strlit(" BETWEEN $");
    reveal_strlit(" AND ");
    reveal_strlit(" AND $");
    reveal_with_fuel(render, 6);
    let b = filter_pieces(FilterExpr::Between { column, low, high }, next);
    assert(b.drop_last().drop_last().drop_last().drop_last().drop_last() =~= Seq::<Piece>::empty());
    assert(render(b) =~= column@ + " BETWEEN $"@ + decimal(next) + " AND $"@ + decimal(next + 1));
    let n1 = filter_pieces(FilterExpr::<P>::IsNull { column }, next);
    assert(n1.drop_last().drop_last() =~= Seq::<Piece>::empty());
    assert(render(n1) =~= column@ + " IS NULL"@);
    let n2 = filter_pieces(FilterExpr::<P>::IsNotNull { column }, next);
    assert(n2.drop_last().drop_last() =~= Seq::<Piece>::empty());
    assert(render(n2) =~= column@ + " IS NOT NULL"@);
}

/// An empty `IN` list matches nothing (`1 = 0`) and an empty `NOT IN` list
/// everything (`1 = 1`); a non-empty list renders as `column IN (...)` or
/// `column NOT IN (...)` around its placeholders.
pub proof fn lemma_in_sql<P>(column: String, values: Vec<P>, negated: bool, next: nat)
    ensures
        values@.len() == 0 ==> render(filter_pieces(FilterExpr::In { column, values, negated }, next))
            == if negated {
            "1 = 1"@
        } else {
            "1 = 0"@
        },
        values@.len() > 0 ==> render(filter_pieces(FilterExpr::In { column, values, negated }, next))
            == column@ + (if negated {
            " NOT IN ("@
        } else {
            " IN ("@
        }) + render(list_pieces(next, values@.len())) + ")"@,
{
    let kw: Seq<char> = if negated {
        " NOT IN ("@
    } else {
        " IN ("@
    };
    if values@.len() == 0 {
        lemma_render_text(if negated {
            "1 = 1"@
        } else {
            "1 = 0"@
        });
    } else {
        let head = seq![Piece::Text(column@), Piece::Text(kw)];
        let mid = list_pieces(next, values@.len());
        let tail = seq![Piece::Text(")"@)];
        lemma_render_append(head + mid, tail);
        lemma_render_append(head, mid);
        lemma_render_text(")"@);
        reveal_with_fuel(render, 3);
        assert(head.drop_last().drop_last() =~= Seq::<Piece>::empty());
        assert(render(head) =~= column@ + kw);
        assert(filter_pieces(FilterExpr::In { column, values, negated }, next) == head + mid + tail);
    }
}

/// `AND` and `OR` render their two sides in parentheses, the right side's
/// placeholders numbered after the left side's.
pub proof fn lemma_junction_sql<P>(l: FilterExpr<P>, r: FilterExpr<P>, next: nat)
    ensures
        render(filter_pieces(FilterExpr::And(Box::new(l), Box::new(r)), next)) == "("@ + render(
            filter_pieces(l, next),
        ) + " AND "@ + render(filter_pieces(r, next + filter_values(l).len())) + ")"@,
        render(filter_pieces(FilterExpr::Or(Box::new(l), Box::new(r)), next)) == "("@ + render(
            filter_pieces(l, next),
        ) + " OR "@ + render(filter_pieces(r, next + filter_values(l).len())) + ")"@,
{
    let lp = filter_pieces(l, next);
    let rp = filter_pieces(r, next + filter_values(l).len());
    let open = seq![Piece::Text("("@)];
    let close = seq![Piece::Text(")"@)];
    lemma_render_text("("@);
    lemma_render_text(")"@);
    lemma_render_text(" AND "@);
    lemma_render_text(" OR "@);
    let and_kw = seq![Piece::Text(" AND "@)];
    lemma_render_append(open + lp + and_kw + rp, close);
    lemma_render_append(open + lp + and_kw, rp);
    lemma_render_append(open + lp, and_kw);
    lemma_render_append(open, lp);
    let or_kw = seq![Piece::Text(" OR "@)];
    lemma_render_append(open + lp + or_kw + rp, close);
    lemma_render_append(open + lp + or_kw, rp);
    lemma_render_append(open + lp, or_kw);
}

} // verus!
