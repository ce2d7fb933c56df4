//! Table metadata for a mapped struct: the default table name derived from
//! the struct's name, and the table definition that the struct's
//! `#[ducklake(table = "...", schema = "...")]` settings and named fields give.

use vstd::prelude::*;

use crate::query::table::{views, TableInfo};
use crate::text::{chars_of, push_char, push_str};

verus! {

/// Whether a non-ASCII `c` has the Unicode `Uppercase` property, as
/// `char::is_uppercase` reports it.
pub uninterp spec fn uppercase_property(c: char) -> bool;

/// `c` is an ASCII character.
pub open spec fn is_ascii_char(c: char) -> bool {
    (c as int) < 128
}

/// `c` is uppercase: among ASCII characters exactly `'A'..='Z'`, beyond
/// ASCII as the Unicode `Uppercase` property says.
pub open spec fn is_upper(c: char) -> bool {
    if is_ascii_char(c) {
        'A' <= c && c <= 'Z'
    } else {
        uppercase_property(c)
    }
}

/// Wraps `char::is_uppercase`, which reports the Unicode `Uppercase`
/// property of the character. Among ASCII characters exactly the capital
/// letters `A` to `Z` have it; beyond ASCII the Unicode tables are not
/// restated.
#[verifier::external_body]
pub(crate) fn is_uppercase(c: char) -> (b: bool)
    ensures
        is_ascii_char(c) ==> (b <==> ('A' <= c && c <= 'Z')),
        !is_ascii_char(c) ==> b == uppercase_property(c),
{
    c.is_uppercase()
}

/// `c` with an ASCII capital letter replaced by its small letter.
pub open spec fn ascii_lower(c: char) -> char {
    if 'A' <= c && c <= 'Z' {
        ((c as int) + 32) as char
    } else {
        c
    }
}

/// `c` with an ASCII capital letter replaced by its small letter.
pub(crate) fn to_ascii_lowercase(c: char) -> (l: char)
    ensures
        l == ascii_lower(c),
{
    if 'A' <= c && c <= 'Z' {
        let b: u8 = (c as u8) + 32;
        b as char
    } else {
        c
    }
}

/// What the character at position `index` contributes to the snake-case
/// form: an `_` before an uppercase character that is not the first, then
/// the character in ASCII lowercase.
pub open spec fn snake_piece(c: char, index: int, upper: bool) -> Seq<char> {
    if upper && index > 0 {
        seq!['_', ascii_lower(c)]
    } else {
        seq![ascii_lower(c)]
    }
}

/// The `snake_case` form of an identifier written in `PascalCase` or
/// `camelCase`.
pub open spec fn snake_case(s: Seq<char>) -> Seq<char>
    decreases s.len(),
{
    if s.len() == 0 {
        Seq::empty()
    } else {
        snake_case(s.drop_last()) + snake_piece(
            s.last(),
            s.len() - 1,
            is_upper(s.last()),
        )
    }
}

/// Appends what the character `c` at position `index` contributes to the
/// snake-case form, given whether `c` is uppercase.
pub fn push_snake_char(out: &mut String, c: char, index: usize, upper: bool)
    ensures
        final(out)@ == old(out)@ + snake_piece(c, index as int, upper),
{
    if upper && index > 0 {
        push_char(out, '_');
    }
    let l = to_ascii_lowercase(c);
    push_char(out, l);
    assert(final(out)@ =~= old(out)@ + snake_piece(c, index as int, upper));
}

/// Converts a `PascalCase` or `camelCase` identifier to `snake_case`:
/// `SaleItem` becomes `sale_item`, `HTTPRequest` becomes `h_t_t_p_request`.
pub fn to_snake_case(s: &str) -> (r: String)
    ensures
        r@ == snake_case(s@),
{
    let cs = chars_of(s);
    let mut out = String::new();
    let n = cs.len();
    for i in 0..n
        invariant
            n == cs@.len(),
            cs@ == s@,
            out@ == snake_case(s@.take(i as int)),
    {
        let c = cs[i];
        let upper = is_uppercase(c);
        assert(upper == is_upper(c));
        proof {
            assert(s@.take(i + 1).drop_last() =~= s@.take(i as int));
            assert(s@.take(i + 1).last() == c);
        }
        push_snake_char(&mut out, c, i, upper);
    }
    assert(s@.take(n as int) =~= s@);
    out
}

/// The number of uppercase characters of `s` after its first character.
pub open spec fn inner_capitals(s: Seq<char>) -> nat
    decreases s.len(),
{
    if s.len() == 0 {
        0
    } else {
        inner_capitals(s.drop_last()) + if s.len() > 1 && is_upper(s.last()) {
            1nat
        } else {
            0nat
        }
    }
}

/// Every character of `s` is ASCII and none is a capital letter.
pub open spec fn lower_ascii(s: Seq<char>) -> bool {
    forall|i: int| 0 <= i < s.len() ==> is_ascii_char(#[trigger] s[i]) && !('A' <= s[i] && s[i] <= 'Z')
}

proof fn lemma_snake_case_fixed(s: Seq<char>)
    requires
        lower_ascii(s),
    ensures
        snake_case(s) == s,
    decreases s.len(),
{
    if s.len() > 0 {
        assert(lower_ascii(s.drop_last())) by {
            assert forall|i: int| 0 <= i < s.drop_last().len() implies is_ascii_char(#[trigger] s.drop_last()[i])
                && !('A' <= s.drop_last()[i] && s.drop_last()[i] <= 'Z') by {
                assert(s.drop_last()[i] == s[i]);
            }
        }
        lemma_snake_case_fixed(s.drop_last());
        assert(is_ascii_char(s[s.len() - 1]));
        assert(s =~= s.drop_last() + seq![s.last()]);
    }
}

/// For an ASCII name, the snake-case form holds ASCII characters and no
/// capital letter, it is longer than the name by one `_` for each capital
/// after the first character, and converting it again changes nothing.
pub proof fn lemma_snake_case_ascii(s: Seq<char>)
    requires
        forall|i: int| 0 <= i < s.len() ==> is_ascii_char(#[trigger] s[i]),
    ensures
        lower_ascii(snake_case(s)),
        snake_case(s).len() == s.len() + inner_capitals(s),
        snake_case(snake_case(s)) == snake_case(s),
    decreases s.len(),
{
    if s.len() > 0 {
        let init = s.drop_last();
        assert forall|i: int| 0 <= i < init.len() implies is_ascii_char(#[trigger] init[i]) by {
            assert(init[i] == s[i]);
        }
        lemma_snake_case_ascii(init);
        let c = s.last();
        assert(is_ascii_char(s[s.len() - 1]));
        let piece = snake_piece(c, s.len() - 1, is_upper(c));
        let r = snake_case(s);
        assert(r == snake_case(init) + piece);
        assert(is_ascii_char(ascii_lower(c)) && !('A' <= ascii_lower(c) && ascii_lower(c) <= 'Z'));
        assert forall|i: int| 0 <= i < r.len() implies is_ascii_char(#[trigger] r[i]) && !('A' <= r[i]
            && r[i] <= 'Z') by {
            if i < snake_case(init).len() {
                assert(r[i] == snake_case(init)[i]);
            } else {
                assert(r[i] == piece[i - snake_case(init).len()]);
            }
        }
        lemma_snake_case_fixed(r);
    } else {
        assert(snake_case(s) =~= Seq::<char>::empty());
    }
}

/// The shape of the item a table mapping is derived for.
#[derive(Debug, Clone, Copy, PartialEq, Eq, Structural)]
pub enum ItemShape {
    /// A struct with named fields.
    NamedStruct,
    /// A tuple struct or a unit struct.
    OtherStruct,
    /// An enum or a union.
    NotStruct,
}

/// The value of the last setting named `key`, or `default` when there is
/// none.
pub open spec fn last_setting(settings: Seq<(String, String)>, key: Seq<char>, default: Seq<char>) -> Seq<char>
    decreases settings.len(),
{
    if settings.len() == 0 {
        default
    } else if settings.last().0@ == key {
        settings.last().1@
    } else {
        last_setting(settings.drop_last(), key, default)
    }
}

/// Message for a mapping derived for something that is not a struct.
pub open spec fn not_struct_message() -> Seq<char> {
    "#[derive(Table)] only supports structs"@
}

/// Message for a mapping derived for a struct without named fields.
pub open spec fn unnamed_fields_message() -> Seq<char> {
    "#[derive(Table)] only supports structs with named fields"@
}

/// The value of the last setting named `key`, or `default`.
pub(crate) fn setting_or(settings: &Vec<(String, String)>, key: &str, default: String) -> (r: String)
    ensures
        r@ == last_setting(settings@, key@, default@),
{
    let mut key_s = String::new();
    push_str(&mut key_s, key);
    let mut r = default;
    let n = settings.len();
    for i in 0..n
        invariant
            n == settings@.len(),
            key_s@ == key@,
            r@ == last_setting(settings@.take(i as int), key@, default@),
    {
        proof {
            assert(settings@.take(i + 1).drop_last() =~= settings@.take(i as int));
            assert(settings@.take(i + 1).last() == settings@[i as int]);
        }
        if settings[i].0 == key_s {
            r = settings[i].1.clone();
        }
    }
    assert(settings@.take(n as int) =~= settings@);
    r
}

/// The table definition of a mapped struct: the table name is the last
/// `table` setting or else the struct's name in snake case, the schema is
/// the last `schema` setting or else `main`, and the columns are the named
/// fields in declaration order. Only structs with named fields can be mapped.
pub fn table_definition(
    struct_name: &str,
    settings: &Vec<(String, String)>,
    shape: ItemShape,
    fields: &Vec<String>,
) -> (r: Result<TableInfo, String>)
    ensures
        match shape {
            ItemShape::NotStruct => r matches Err(m) && m@ == not_struct_message(),
            ItemShape::OtherStruct => r matches Err(m) && m@ == unnamed_fields_message(),
            ItemShape::NamedStruct => r matches Ok(info) && info.table@ == last_setting(
                settings@,
                "table"@,
                snake_case(struct_name@),
            ) && info.schema@ == last_setting(settings@, "schema"@, "main"@) && views(
                info.columns@,
            ) == views(fields@),
        },
{
    let default_table = to_snake_case(struct_name);
    let table = setting_or(settings, "table", default_table);
    let mut main = String::new();
    push_str(&mut main, "main");
    let schema = setting_or(settings, "schema", main);
    match shape {
        ItemShape::NotStruct => {
            let mut m = String::new();
            push_str(&mut m, "#[derive(Table)] only supports structs");
            Err(m)
        },
        ItemShape::OtherStruct => {
            let mut m = String::new();
            push_str(&mut m, "#[derive(Table)] only supports structs with named fields");
            Err(m)
        },
        ItemShape::NamedStruct => {
            let mut columns: Vec<String> = Vec::new();
            let n = fields.len();
            for i in 0..n
                invariant
                    n == fields@.len(),
                    columns@.len() == i,
                    forall|k: int| 0 <= k < i ==> #[trigger] columns@[k]@ == fields@[k]@,
            {
                columns.push(fields[i].clone());
            }
            assert(views(columns@) =~= views(fields@));
            Ok(TableInfo { schema, table, columns })
        },
    }
}

} // verus!
