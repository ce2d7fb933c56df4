//! Table metadata and the pieces shared by every statement: qualified table
//! references and comma-separated name lists.

use vstd::prelude::*;

use crate::sql::{all_text, Piece, SqlWriter};
use crate::text::push_str;

verus! {

/// What the builders need to know about a mapped table.
#[derive(Debug, Clone)]
pub struct TableInfo {
    /// Schema holding the table (usually `main`).
    pub schema: String,
    /// Table name.
    pub table: String,
    /// Column names, in the order of the mapped struct's fields.
    pub columns: Vec<String>,
}

/// The view of an optional string.
pub open spec fn opt_view(o: Option<String>) -> Option<Seq<char>> {
    match o {
        Some(s) => Some(s@),
        None => None,
    }
}

/// The views of a list of strings.
pub open spec fn views(v: Seq<String>) -> Seq<Seq<char>> {
    v.map_values(|s: String| s@)
}

/// `catalog.schema.table`, or `schema.table` without a catalog.
pub open spec fn table_ref_text(catalog: Option<Seq<char>>, schema: Seq<char>, table: Seq<char>) -> Seq<char> {
    match catalog {
        Some(cat) => cat + "."@ + schema + "."@ + table,
        None => schema + "."@ + table,
    }
}

/// Builds the fully qualified `[catalog.]schema.table` reference.
pub fn table_ref(catalog: Option<&str>, schema: &str, table: &str) -> (r: String)
    ensures
        r@ == table_ref_text(
            match catalog {
                Some(c) => Some(c@),
                None => None,
            },
            schema@,
            table@,
        ),
{
    let mut r = String::new();
    match catalog {
        Some(cat) => {
            push_str(&mut r, cat);
            push_str(&mut r, ".");
        },
        None => {},
    }
    push_str(&mut r, schema);
    push_str(&mut r, ".");
    push_str(&mut r, table);
    proof {
        match catalog {
            Some(c) => {
                assert(r@ =~= c@ + "."@ + schema@ + "."@ + table@);
            },
            None => {
                assert(r@ =~= schema@ + "."@ + table@);
            },
        }
    }
    r
}

/// The table reference of `info` under `catalog`.
pub fn table_ref_of(catalog: &Option<String>, info: &TableInfo) -> (r: String)
    ensures
        r@ == table_ref_text(opt_view(*catalog), info.schema@, info.table@),
{
    match catalog {
        Some(c) => table_ref(Some(c.as_str()), info.schema.as_str(), info.table.as_str()),
        None => table_ref(None, info.schema.as_str(), info.table.as_str()),
    }
}

/// `items` separated by `sep`, as literal text.
pub open spec fn join_pieces(items: Seq<Seq<char>>, sep: Seq<char>) -> Seq<Piece>
    decreases items.len(),
{
    if items.len() == 0 {
        Seq::empty()
    } else if items.len() == 1 {
        seq![Piece::Text(items[0])]
    } else {
        join_pieces(items.drop_last(), sep) + seq![Piece::Text(sep), Piece::Text(items.last())]
    }
}

/// A joined list is literal text.
pub proof fn lemma_join_text(items: Seq<Seq<char>>, sep: Seq<char>)
    ensures
        all_text(join_pieces(items, sep)),
    decreases items.len(),
{
    if items.len() > 1 {
        lemma_join_text(items.drop_last(), sep);
        let a = join_pieces(items.drop_last(), sep);
        let b = seq![Piece::Text(sep), Piece::Text(items.last())];
        assert forall|i: int| 0 <= i < (a + b).len() implies #[trigger] (a + b)[i] is Text by {
            if i < a.len() {
                assert((a + b)[i] == a[i]);
            } else {
                assert((a + b)[i] == b[i - a.len()]);
            }
        }
    }
}

/// Writes `items` separated by `sep`.
pub fn write_joined(w: &mut SqlWriter, items: &Vec<String>, sep: &str)
    ensures
        final(w)@ == old(w)@ + join_pieces(views(items@), sep@),
{
    let ghost base = w@;
    let ghost vs = views(items@);
    let mut i: usize = 0;
    while i < items.len()
        invariant
            i <= items.len(),
            vs == views(items@),
            vs.len() == items.len(),
            w@ == base + join_pieces(vs.take(i as int), sep@),
        decreases items.len() - i,
    {
        if i > 0 {
            w.text(sep);
        }
        w.text(items[i].as_str());
        proof {
            let t = vs.take(i + 1);
            assert(t.drop_last() =~= vs.take(i as int));
            assert(t.last() == items@[i as int]@);
            if i == 0 {
                assert(t =~= seq![items@[0]@]);
            }
            assert(w@ =~= base + join_pieces(t, sep@));
        }
        i = i + 1;
    }
    proof {
        assert(vs.take(items.len() as int) =~= vs);
    }
}

} // verus!
