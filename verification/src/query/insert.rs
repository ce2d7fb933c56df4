//! INSERT statements, single-row and bulk, with conflict handling.

use vstd::prelude::*;

use crate::query::filter::{lemma_list_placeholders, list_pieces, ColumnExpr};
use crate::query::table::{
    join_pieces, lemma_join_text, opt_view, table_ref_of, table_ref_text, views, write_joined,
    TableInfo,
};
use crate::sql::{
    all_text, consecutive, lemma_all_text_concat, lemma_placeholders_concat,
    lemma_placeholders_text, placeholders, render, Piece, SqlWriter,
};

verus! {

/// Conflict resolution strategy for `INSERT` statements.
#[derive(Debug, Clone, Copy, PartialEq, Eq)]
pub enum OnConflict {
    /// Fail the statement on a constraint violation (`INSERT INTO`).
    Abort,
    /// Replace the conflicting row (`INSERT OR REPLACE INTO`).
    Replace,
    /// Skip the row (`INSERT OR IGNORE INTO`).
    Ignore,
}

impl Default for OnConflict {
    fn default() -> (r: OnConflict)
        ensures
            r == OnConflict::Abort,
    {
        OnConflict::Abort
    }
}

/// The statement keyword for a conflict strategy.
pub open spec fn insert_keyword(c: OnConflict) -> Seq<char> {
    match c {
        OnConflict::Abort => "INSERT INTO"@,
        OnConflict::Replace => "INSERT OR REPLACE INTO"@,
        OnConflict::Ignore => "INSERT OR IGNORE INTO"@,
    }
}

/// The parts of an INSERT statement, as the builder holds them.
pub ghost struct InsertParts {
    pub catalog: Option<Seq<char>>,
    pub schema: Seq<char>,
    pub table: Seq<char>,
    pub columns: Seq<Seq<char>>,
    pub on_conflict: OnConflict,
}

/// `<keyword> table (col1, ...) VALUES ($1, ...)`, one placeholder per column.
pub open spec fn insert_pieces(m: InsertParts) -> Seq<Piece> {
    seq![
        Piece::Text(insert_keyword(m.on_conflict)),
        Piece::Text(" "@),
        Piece::Text(table_ref_text(m.catalog, m.schema, m.table)),
        Piece::Text(" ("@),
    ] + join_pieces(m.columns, ", "@) + seq![Piece::Text(") VALUES ("@)] + list_pieces(
        1,
        m.columns.len(),
    ) + seq![Piece::Text(")"@)]
}

/// Builder for single-row `INSERT` statements; the row itself stays with the
/// caller, which binds its fields in column order.
pub struct InsertBuilder {
    catalog: Option<String>,
    table: TableInfo,
    on_conflict: OnConflict,
}

impl View for InsertBuilder {
    type V = InsertParts;

    closed spec fn view(&self) -> InsertParts {
        InsertParts {
            catalog: opt_view(self.catalog),
            schema: self.table.schema@,
            table: self.table.table@,
            columns: views(self.table.columns@),
            on_conflict: self.on_conflict,
        }
    }
}

impl InsertBuilder {
    /// A plain `INSERT INTO` into `table`.
    pub fn new(catalog: Option<String>, table: TableInfo) -> (b: InsertBuilder)
        ensures
            b@ == (InsertParts {
                catalog: opt_view(catalog),
                schema: table.schema@,
                table: table.table@,
                columns: views(table.columns@),
                on_conflict: OnConflict::Abort,
            }),
    {
        InsertBuilder { catalog, table, on_conflict: OnConflict::Abort }
    }

    /// On a key conflict, replace the existing row (`INSERT OR REPLACE`).
    pub fn or_replace(self) -> (b: InsertBuilder)
        ensures
            b@ == (InsertParts { on_conflict: OnConflict::Replace, ..self@ }),
    {
        let mut s = self;
        s.on_conflict = OnConflict::Replace;
        s
    }

    /// On a key conflict, keep the existing row (`INSERT OR IGNORE`).
    pub fn or_ignore(self) -> (b: InsertBuilder)
        ensures
            b@ == (InsertParts { on_conflict: OnConflict::Ignore, ..self@ }),
    {
        let mut s = self;
        s.on_conflict = OnConflict::Ignore;
        s
    }

    fn write_sql(&self, w: &mut SqlWriter)
        requires
            old(w)@ == Seq::<Piece>::empty(),
        ensures
            final(w)@ == insert_pieces(self@),
    {
        let m = self.on_conflict;
        match m {
            OnConflict::Abort => w.text("INSERT INTO"),
            OnConflict::Replace => w.text("INSERT OR REPLACE INTO"),
            OnConflict::Ignore => w.text("INSERT OR IGNORE INTO"),
        }
        w.text(" ");
        let t = table_ref_of(&self.catalog, &self.table);
        w.text(t.as_str());
        w.text(" (");
        assert(w@ =~= seq![
            Piece::Text(insert_keyword(self@.on_conflict)),
            Piece::Text(" "@),
            Piece::Text(table_ref_text(self@.catalog, self@.schema, self@.table)),
            Piece::Text(" ("@),
        ]);
        write_joined(w, &self.table.columns, ", ");
        w.text(") VALUES (");
        write_placeholder_list(w, self.table.columns.len());
        w.text(")");
        assert(self@.columns.len() == self.table.columns.len());
        assert(w@ =~= insert_pieces(self@));
    }

    /// The INSERT statement.
    pub fn build_sql(&self) -> (sql: String)
        ensures
            sql@ == render(insert_pieces(self@)),
    {
        let mut w = SqlWriter::new();
        self.write_sql(&mut w);
        w.finish()
    }

    /// The INSERT statement followed by ` RETURNING <column>`.
    pub fn build_returning_sql(&self, column: &ColumnExpr) -> (sql: String)
        ensures
            sql@ == render(insert_pieces(self@) + seq![
                Piece::Text(" RETURNING "@),
                Piece::Text(column.name@),
            ]),
    {
        let mut w = SqlWriter::new();
        self.write_sql(&mut w);
        w.text(" RETURNING ");
        w.text(column.name.as_str());
        assert(w@ =~= insert_pieces(self@) + seq![
            Piece::Text(" RETURNING "@),
            Piece::Text(column.name@),
        ]);
        w.finish()
    }
}

/// Builder for bulk `INSERT`: one plain `INSERT INTO` statement executed once
/// per row inside a single transaction.
pub struct BulkInsertBuilder {
    catalog: Option<String>,
    table: TableInfo,
}

impl View for BulkInsertBuilder {
    type V = InsertParts;

    closed spec fn view(&self) -> InsertParts {
        InsertParts {
            catalog: opt_view(self.catalog),
            schema: self.table.schema@,
            table: self.table.table@,
            columns: views(self.table.columns@),
            on_conflict: OnConflict::Abort,
        }
    }
}

impl BulkInsertBuilder {
    /// A bulk insert into `table`.
    pub fn new(catalog: Option<String>, table: TableInfo) -> (b: BulkInsertBuilder)
        ensures
            b@ == (InsertParts {
                catalog: opt_view(catalog),
                schema: table.schema@,
                table: table.table@,
                columns: views(table.columns@),
                on_conflict: OnConflict::Abort,
            }),
    {
        BulkInsertBuilder { catalog, table }
    }

    /// The statement executed for every row: a plain `INSERT INTO`.
    pub fn build_sql(&self) -> (sql: String)
        ensures
            sql@ == render(insert_pieces(self@)),
    {
        let b = InsertBuilder {
            catalog: self.catalog.clone(),
            table: TableInfo {
                schema: self.table.schema.clone(),
                table: self.table.table.clone(),
                columns: clone_names(&self.table.columns),
            },
            on_conflict: OnConflict::Abort,
        };
        assert(b@ == self@);
        b.build_sql()
    }
}

fn clone_names(v: &Vec<String>) -> (r: Vec<String>)
    ensures
        r@ == v@,
{
    let mut r: Vec<String> = Vec::new();
    let mut i: usize = 0;
    while i < v.len()
        invariant
            i <= v.len(),
            r@ == v@.take(i as int),
        decreases v.len() - i,
    {
        r.push(v[i].clone());
        assert(r@ =~= v@.take(i + 1));
        i = i + 1;
    }
    assert(v@.take(v@.len() as int) =~= v@);
    r
}

/// Writes `$1, $2, ..., $count`.
fn write_placeholder_list(w: &mut SqlWriter, count: usize)
    ensures
        final(w)@ == old(w)@ + list_pieces(1, count as nat),
{
    let ghost base = w@;
    let mut i: usize = 0;
    while i < count
        invariant
            i <= count,
            w@ == base + list_pieces(1, i as nat),
        decreases count - i,
    {
        if i > 0 {
            w.text(", ");
        }
        w.param((i as u64) + 1);
        proof {
            if i == 0 {
                assert(w@ =~= base + list_pieces(1, 1));
            } else {
                assert(w@ =~= base + list_pieces(1, (i + 1) as nat));
            }
        }
        i = i + 1;
    }
}

/// An INSERT statement numbers its placeholders `$1, ..., $n`, one per column.
pub proof fn lemma_insert_placeholders(m: InsertParts)
    ensures
        placeholders(insert_pieces(m)) == consecutive(1, m.columns.len()),
{
    let a = seq![
        Piece::Text(insert_keyword(m.on_conflict)),
        Piece::Text(" "@),
        Piece::Text(table_ref_text(m.catalog, m.schema, m.table)),
        Piece::Text(" ("@),
    ];
    let b = seq![Piece::Text(") VALUES ("@)];
    let c = seq![Piece::Text(")"@)];
    let j = join_pieces(m.columns, ", "@);
    let l = list_pieces(1, m.columns.len());
    assert(all_text(a));
    assert(all_text(b));
    assert(all_text(c));
    lemma_join_text(m.columns, ", "@);
    lemma_all_text_concat(a, j);
    lemma_all_text_concat(a + j, b);
    lemma_placeholders_text(a + j + b);
    lemma_placeholders_text(c);
    lemma_placeholders_concat(a + j + b + l, c);
    lemma_placeholders_concat(a + j + b, l);
    lemma_list_placeholders(1, m.columns.len());
    assert(Seq::<nat>::empty() + placeholders(l) + Seq::<nat>::empty() =~= placeholders(l));
}

} // verus!
