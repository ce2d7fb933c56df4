//! DELETE statements with the filter guardrail.

use vstd::prelude::*;

use crate::error::DuckLakeError;
use crate::query::filter::{
    filters_values, lemma_where_placeholders, where_pieces, write_where, FilterExpr,
};
use crate::query::table::{opt_view, table_ref_of, table_ref_text, TableInfo};
use crate::sql::{
    all_text, consecutive, lemma_placeholders_concat, lemma_placeholders_text, placeholders,
    render, Piece, SqlWriter,
};
use crate::text::push_str;

verus! {

/// The parts of a DELETE statement, as the builder holds them.
pub ghost struct DeleteParts<P> {
    pub catalog: Option<Seq<char>>,
    pub schema: Seq<char>,
    pub table: Seq<char>,
    pub filters: Seq<FilterExpr<P>>,
}

/// `DELETE FROM table`
pub open spec fn delete_head<P>(m: DeleteParts<P>) -> Seq<Piece> {
    seq![
        Piece::Text("DELETE FROM "@),
        Piece::Text(table_ref_text(m.catalog, m.schema, m.table)),
    ]
}

/// `DELETE FROM table WHERE ...`
pub open spec fn delete_pieces<P>(m: DeleteParts<P>) -> Seq<Piece> {
    delete_head(m) + seq![Piece::Text(" WHERE "@)] + where_pieces(m.filters, 1)
}

/// Message when a filtered DELETE has no predicate.
pub open spec fn missing_delete_filter_message() -> Seq<char> {
    "DELETE requires at least one .filter() to prevent full-table deletion; call .delete_all() if you intentionally want to delete every row"@
}

/// Builder for `DELETE` statements.
///
/// [`build`](Self::build) refuses a statement without a predicate;
/// [`build_all`](Self::build_all) is the explicit form that deletes every row.
pub struct DeleteBuilder<P> {
    catalog: Option<String>,
    table: TableInfo,
    filters: Vec<FilterExpr<P>>,
}

impl<P> View for DeleteBuilder<P> {
    type V = DeleteParts<P>;

    closed spec fn view(&self) -> DeleteParts<P> {
        DeleteParts {
            catalog: opt_view(self.catalog),
            schema: self.table.schema@,
            table: self.table.table@,
            filters: self.filters@,
        }
    }
}

impl<P> DeleteBuilder<P> {
    /// A DELETE from `table` with no predicate yet.
    pub fn new(catalog: Option<String>, table: TableInfo) -> (b: DeleteBuilder<P>)
        ensures
            b@ == (DeleteParts::<P> {
                catalog: opt_view(catalog),
                schema: table.schema@,
                table: table.table@,
                filters: Seq::empty(),
            }),
    {
        DeleteBuilder { catalog, table, filters: Vec::new() }
    }

    /// Adds a predicate; several are AND-ed together.
    pub fn filter(self, expr: FilterExpr<P>) -> (b: DeleteBuilder<P>)
        ensures
            b@ == (DeleteParts { filters: self@.filters.push(expr), ..self@ }),
    {
        let mut s = self;
        s.filters.push(expr);
        s
    }

    fn write_head(&self, w: &mut SqlWriter)
        requires
            old(w)@ == Seq::<Piece>::empty(),
        ensures
            final(w)@ == delete_head(self@),
    {
        w.text("DELETE FROM ");
        let t = table_ref_of(&self.catalog, &self.table);
        w.text(t.as_str());
        assert(w@ =~= delete_head(self@));
    }

    /// The filtered DELETE and the values it binds; refused with
    /// [`DuckLakeError::Query`] when no predicate was given (use
    /// [`build_all`](Self::build_all) to delete every row).
    pub fn build(self) -> (r: Result<(String, Vec<P>), DuckLakeError>)
        ensures
            match r {
                Ok((sql, params)) => {
                    &&& self@.filters.len() > 0
                    &&& sql@ == render(delete_pieces(self@))
                    &&& params@ == filters_values(self@.filters)
                },
                Err(DuckLakeError::Query(m)) => self@.filters.len() == 0 && m@
                    == missing_delete_filter_message(),
                Err(_) => false,
            },
    {
        if self.filters.len() == 0 {
            let mut m = String::new();
            push_str(
                &mut m,
                "DELETE requires at least one .filter() to prevent full-table deletion; call .delete_all() if you intentionally want to delete every row",
            );
            assert(m@ =~= missing_delete_filter_message());
            return Err(DuckLakeError::Query(m));
        }
        let ghost m = self@;
        let mut w = SqlWriter::new();
        self.write_head(&mut w);
        w.text(" WHERE ");
        let mut params: Vec<P> = Vec::new();
        let DeleteBuilder { catalog, table, filters } = self;
        write_where(filters, &mut w, &mut params);
        assert(w@ =~= delete_pieces(m));
        assert(params@ =~= filters_values(m.filters));
        Ok((w.finish(), params))
    }

    /// The DELETE of every row.
    pub fn build_all(&self) -> (sql: String)
        ensures
            sql@ == render(delete_head(self@)),
    {
        let mut w = SqlWriter::new();
        self.write_head(&mut w);
        w.finish()
    }
}

/// A filtered DELETE numbers its placeholders `$1, $2, ...`, one per bound value.
pub proof fn lemma_delete_placeholders<P>(m: DeleteParts<P>)
    ensures
        placeholders(delete_pieces(m)) == consecutive(1, filters_values(m.filters).len()),
{
    let a = delete_head(m) + seq![Piece::Text(" WHERE "@)];
    assert(a =~= seq![
        Piece::Text("DELETE FROM "@),
        Piece::Text(table_ref_text(m.catalog, m.schema, m.table)),
        Piece::Text(" WHERE "@),
    ]);
    assert(all_text(a));
    lemma_placeholders_text(a);
    lemma_placeholders_concat(a, where_pieces(m.filters, 1));
    lemma_where_placeholders(m.filters, 1);
    assert(Seq::<nat>::empty() + consecutive(1, filters_values(m.filters).len()) =~= consecutive(
        1,
        filters_values(m.filters).len(),
    ));
}

} // verus!
