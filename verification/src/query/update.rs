//! UPDATE statements with the filter guardrail.

use vstd::prelude::*;

use crate::error::DuckLakeError;
use crate::query::filter::{
    filters_values, lemma_where_placeholders, where_pieces, write_where, ColumnExpr, FilterExpr,
};
use crate::query::table::{opt_view, table_ref_of, table_ref_text, TableInfo};
use crate::sql::{
    all_text, consecutive, lemma_consecutive_concat, lemma_placeholders_concat,
    lemma_placeholders_text, placeholders, render, Piece, SqlWriter,
};
use crate::text::push_str;

verus! {

/// The parts of an UPDATE statement, as the builder holds them.
pub ghost struct UpdateParts<P> {
    pub catalog: Option<Seq<char>>,
    pub schema: Seq<char>,
    pub table: Seq<char>,
    pub sets: Seq<(String, P)>,
    pub filters: Seq<FilterExpr<P>>,
}

/// `col1 = $1, col2 = $2, ...` for the assignments of `sets`.
pub open spec fn set_pieces<P>(sets: Seq<(String, P)>) -> Seq<Piece>
    decreases sets.len(),
{
    if sets.len() == 0 {
        Seq::empty()
    } else if sets.len() == 1 {
        seq![Piece::Text(sets[0].0@), Piece::Text(" = "@), Piece::Param(1)]
    } else {
        set_pieces(sets.drop_last()) + seq![
            Piece::Text(", "@),
            Piece::Text(sets.last().0@),
            Piece::Text(" = "@),
            Piece::Param(sets.len()),
        ]
    }
}

/// The values the assignments bind, in order.
pub open spec fn set_values<P>(sets: Seq<(String, P)>) -> Seq<P> {
    sets.map_values(|s: (String, P)| s.1)
}

/// `UPDATE table SET ...`
pub open spec fn update_head<P>(m: UpdateParts<P>) -> Seq<Piece> {
    seq![
        Piece::Text("UPDATE "@),
        Piece::Text(table_ref_text(m.catalog, m.schema, m.table)),
        Piece::Text(" SET "@),
    ] + set_pieces(m.sets)
}

/// `UPDATE table SET ... WHERE ...`, the predicates' placeholders following
/// those of the assignments.
pub open spec fn update_pieces<P>(m: UpdateParts<P>) -> Seq<Piece> {
    update_head(m) + seq![Piece::Text(" WHERE "@)] + where_pieces(m.filters, m.sets.len() + 1)
}

/// The values the filtered UPDATE binds: assignments first, then predicates.
pub open spec fn update_values<P>(m: UpdateParts<P>) -> Seq<P> {
    set_values(m.sets) + filters_values(m.filters)
}

/// Message when no column is assigned.
pub open spec fn missing_set_message() -> Seq<char> {
    "UPDATE requires at least one .set() call"@
}

/// Message when a filtered UPDATE has no predicate.
pub open spec fn missing_update_filter_message() -> Seq<char> {
    "UPDATE requires at least one .filter() to prevent full-table overwrite; call .update_all() if you intentionally want to update every row"@
}

/// Builder for `UPDATE` statements.
///
/// [`build`](Self::build) refuses a statement without an assignment or
/// without a predicate; [`build_all`](Self::build_all) is the explicit form
/// that updates every row.
pub struct UpdateBuilder<P> {
    catalog: Option<String>,
    table: TableInfo,
    sets: Vec<(String, P)>,
    filters: Vec<FilterExpr<P>>,
}

impl<P> View for UpdateBuilder<P> {
    type V = UpdateParts<P>;

    closed spec fn view(&self) -> UpdateParts<P> {
        UpdateParts {
            catalog: opt_view(self.catalog),
            schema: self.table.schema@,
            table: self.table.table@,
            sets: self.sets@,
            filters: self.filters@,
        }
    }
}

fn message(s: &str) -> (r: String)
    ensures
        r@ == s@,
{
    let mut r = String::new();
    push_str(&mut r, s);
    assert(r@ =~= s@);
    r
}

impl<P> UpdateBuilder<P> {
    /// An UPDATE of `table` with no assignment and no predicate yet.
    pub fn new(catalog: Option<String>, table: TableInfo) -> (b: UpdateBuilder<P>)
        ensures
            b@ == (UpdateParts::<P> {
                catalog: opt_view(catalog),
                schema: table.schema@,
                table: table.table@,
                sets: Seq::empty(),
                filters: Seq::empty(),
            }),
    {
        UpdateBuilder { catalog, table, sets: Vec::new(), filters: Vec::new() }
    }

    /// Assigns `value` to `column`; assignments are listed in call order.
    pub fn set(self, column: ColumnExpr, value: P) -> (b: UpdateBuilder<P>)
        ensures
            b@ == (UpdateParts { sets: self@.sets.push((column.name, value)), ..self@ }),
    {
        let mut s = self;
        s.sets.push((column.name, value));
        s
    }

    /// Adds a predicate; several are AND-ed together.
    pub fn filter(self, expr: FilterExpr<P>) -> (b: UpdateBuilder<P>)
        ensures
            b@ == (UpdateParts { filters: self@.filters.push(expr), ..self@ }),
    {
        let mut s = self;
        s.filters.push(expr);
        s
    }

    fn write_head(&self, w: &mut SqlWriter) -> (params: Vec<P>)
        requires
            old(w)@ == Seq::<Piece>::empty(),
        ensures
            final(w)@ == update_head(self@),
            params.len() == 0,
    {
        w.text("UPDATE ");
        let t = table_ref_of(&self.catalog, &self.table);
        w.text(t.as_str());
        w.text(" SET ");
        assert(w@ =~= seq![
            Piece::Text("UPDATE "@),
            Piece::Text(table_ref_text(self@.catalog, self@.schema, self@.table)),
            Piece::Text(" SET "@),
        ]);
        let ghost base = w@;
        let mut i: usize = 0;
        while i < self.sets.len()
            invariant
                i <= self.sets.len(),
                w@ == base + set_pieces(self.sets@.take(i as int)),
            decreases self.sets.len() - i,
        {
            if i > 0 {
                w.text(", ");
            }
            w.text(self.sets[i].0.as_str());
            w.text(" = ");
            w.param((i as u64) + 1);
            proof {
                let t = self.sets@.take(i + 1);
                assert(t.drop_last() =~= self.sets@.take(i as int));
                assert(t.last() == self.sets@[i as int]);
                if i == 0 {
                    assert(t =~= seq![self.sets@[0]]);
                }
                assert(w@ =~= base + set_pieces(t));
            }
            i = i + 1;
        }
        assert(self.sets@.take(self.sets@.len() as int) =~= self.sets@);
        Vec::new()
    }

    fn into_parts(self) -> (r: (Vec<P>, Vec<FilterExpr<P>>))
        ensures
            r.0@ == set_values(self@.sets),
            r.1@ == self@.filters,
    {
        let UpdateBuilder { catalog, table, sets, filters } = self;
        let ghost ss = sets@;
        let mut rest = sets;
        let mut vals: Vec<P> = Vec::new();
        let n = rest.len();
        let mut i: usize = 0;
        while i < n
            invariant
                n == ss.len(),
                i <= n,
                rest@ == ss.skip(i as int),
                vals@ == set_values(ss.take(i as int)),
            decreases n - i,
        {
            let (_c, v) = rest.remove(0);
            vals.push(v);
            proof {
                assert(rest@ =~= ss.skip(i + 1));
                assert(vals@ =~= set_values(ss.take(i + 1)));
            }
            i = i + 1;
        }
        assert(ss.take(n as int) =~= ss);
        (vals, filters)
    }

    /// The filtered UPDATE and the values it binds.
    ///
    /// Refused with [`DuckLakeError::Query`] when no column is assigned, or
    /// when no predicate was given (use [`build_all`](Self::build_all) to
    /// update every row).
    pub fn build(self) -> (r: Result<(String, Vec<P>), DuckLakeError>)
        ensures
            match r {
                Ok((sql, params)) => {
                    &&& self@.sets.len() > 0
                    &&& self@.filters.len() > 0
                    &&& sql@ == render(update_pieces(self@))
                    &&& params@ == update_values(self@)
                },
                Err(DuckLakeError::Query(m)) => if self@.sets.len() == 0 {
                    m@ == missing_set_message()
                } else {
                    self@.filters.len() == 0 && m@ == missing_update_filter_message()
                },
                Err(_) => false,
            },
    {
        if self.sets.len() == 0 {
            return Err(DuckLakeError::Query(message("UPDATE requires at least one .set() call")));
        }
        if self.filters.len() == 0 {
            return Err(
                DuckLakeError::Query(
                    message(
                        "UPDATE requires at least one .filter() to prevent full-table overwrite; call .update_all() if you intentionally want to update every row",
                    ),
                ),
            );
        }
        let ghost m = self@;
        let mut w = SqlWriter::new();
        let _ = self.write_head(&mut w);
        let (mut params, filters) = self.into_parts();
        w.text(" WHERE ");
        proof {
            assert(params@.len() == m.sets.len());
        }
        write_where(filters, &mut w, &mut params);
        assert(w@ =~= update_pieces(m));
        Ok((w.finish(), params))
    }

    /// The UPDATE of every row and the values it binds; refused with
    /// [`DuckLakeError::Query`] when no column is assigned.
    pub fn build_all(self) -> (r: Result<(String, Vec<P>), DuckLakeError>)
        ensures
            match r {
                Ok((sql, params)) => {
                    &&& self@.sets.len() > 0
                    &&& sql@ == render(update_head(self@))
                    &&& params@ == set_values(self@.sets)
                },
                Err(DuckLakeError::Query(m)) => self@.sets.len() == 0 && m@ == missing_set_message(),
                Err(_) => false,
            },
    {
        if self.sets.len() == 0 {
            return Err(DuckLakeError::Query(message("UPDATE requires at least one .set() call")));
        }
        let mut w = SqlWriter::new();
        let _ = self.write_head(&mut w);
        let (params, _filters) = self.into_parts();
        Ok((w.finish(), params))
    }
}

proof fn lemma_set_placeholders<P>(sets: Seq<(String, P)>)
    ensures
        placeholders(set_pieces(sets)) == consecutive(1, sets.len()),
    decreases sets.len(),
{
    reveal_with_fuel(placeholders, 5);
    if sets.len() == 0 {
        assert(consecutive(1, 0) =~= Seq::<nat>::empty());
    } else if sets.len() == 1 {
        let ps = seq![Piece::Text(sets[0].0@), Piece::Text(" = "@), Piece::Param(1)];
        assert(ps.drop_last() =~= seq![Piece::Text(sets[0].0@), Piece::Text(" = "@)]);
        assert(ps.drop_last().drop_last() =~= seq![Piece::Text(sets[0].0@)]);
        assert(ps.drop_last().drop_last().drop_last() =~= Seq::<Piece>::empty());
        assert(placeholders(ps) =~= seq![1nat]);
        assert(consecutive(1, 1) =~= seq![1nat]);
    } else {
        lemma_set_placeholders(sets.drop_last());
        let t = seq![
            Piece::Text(", "@),
            Piece::Text(sets.last().0@),
            Piece::Text(" = "@),
            Piece::Param(sets.len()),
        ];
        let tt = seq![Piece::Text(", "@), Piece::Text(sets.last().0@), Piece::Text(" = "@)];
        assert(all_text(tt));
        lemma_placeholders_text(tt);
        assert(t.drop_last() =~= tt);
        assert(placeholders(t) =~= seq![sets.len()]);
        lemma_placeholders_concat(set_pieces(sets.drop_last()), t);
        assert(consecutive(1, (sets.len() - 1) as nat) + seq![sets.len()] =~= consecutive(
            1,
            sets.len(),
        ));
    }
}

/// A filtered UPDATE numbers its placeholders `$1, $2, ...`: the assignments
/// take the first numbers and the predicates the rest, one per bound value.
pub proof fn lemma_update_placeholders<P>(m: UpdateParts<P>)
    ensures
        placeholders(update_pieces(m)) == consecutive(1, update_values(m).len()),
        placeholders(update_head(m)) == consecutive(1, set_values(m.sets).len()),
{
    let a = seq![
        Piece::Text("UPDATE "@),
        Piece::Text(table_ref_text(m.catalog, m.schema, m.table)),
        Piece::Text(" SET "@),
    ];
    let wh = seq![Piece::Text(" WHERE "@)];
    assert(all_text(a));
    assert(all_text(wh));
    lemma_placeholders_text(a);
    lemma_placeholders_text(wh);
    lemma_set_placeholders(m.sets);
    lemma_placeholders_concat(a, set_pieces(m.sets));
    assert(Seq::<nat>::empty() + consecutive(1, m.sets.len()) =~= consecutive(1, m.sets.len()));
    let n = m.sets.len();
    lemma_where_placeholders(m.filters, n + 1);
    lemma_placeholders_concat(update_head(m) + wh, where_pieces(m.filters, n + 1));
    lemma_placeholders_concat(update_head(m), wh);
    lemma_consecutive_concat(1, n, filters_values(m.filters).len());
    assert(consecutive(1, n) + Seq::<nat>::empty() =~= consecutive(1, n));
}

} // verus!
