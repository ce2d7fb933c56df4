//! The column mapping of a struct with field-level settings: `rename_all`
//! on the struct, and `column = "..."`, `skip_insert` and `skip` on its
//! fields.

use vstd::prelude::*;

use crate::naming::{
    ascii_lower, inner_capitals, is_upper, is_uppercase, last_setting, not_struct_message, setting_or, snake_case,
    snake_piece, to_ascii_lowercase, to_snake_case, unnamed_fields_message, ItemShape,
};
use crate::query::table::{views, TableInfo};
use crate::text::{chars_of, push_char, push_str};

verus! {

/// A case conversion applied to every field name (`rename_all`).
#[derive(Debug, Clone, Copy, PartialEq, Eq, Structural)]
pub enum RenameRule {
    /// `snake_case`
    SnakeCase,
    /// `SCREAMING_SNAKE_CASE`
    ScreamingSnakeCase,
    /// `kebab-case`
    KebabCase,
    /// `camelCase`
    CamelCase,
    /// `PascalCase`
    PascalCase,
    /// `lowercase`
    Lowercase,
    /// `UPPERCASE`
    Uppercase,
}

/// `c` with an ASCII small letter replaced by its capital letter.
pub open spec fn ascii_upper(c: char) -> char {
    if 'a' <= c && c <= 'z' {
        ((c as int) - 32) as char
    } else {
        c
    }
}

fn to_ascii_uppercase(c: char) -> (u: char)
    ensures
        u == ascii_upper(c),
{
    if 'a' <= c && c <= 'z' {
        let b: u8 = (c as u8) - 32;
        b as char
    } else {
        c
    }
}

/// Every character of `s` is `_`.
pub open spec fn all_underscores(s: Seq<char>) -> bool {
    forall|i: int| 0 <= i < s.len() ==> #[trigger] s[i] == '_'
}

/// What the character `c` at position `index` of a field name becomes under
/// `rule`, given whether the character before it is `_` (`after_underscore`)
/// and whether every character before it is `_` (`leading`).
///
/// The snake-case forms split words before uppercase characters; the
/// camel- and Pascal-case forms drop `_` and capitalise the character after
/// it (and, for Pascal case, the first character).
pub open spec fn rename_piece(rule: RenameRule, c: char, index: int, after_underscore: bool, leading: bool) -> Seq<char> {
    match rule {
        RenameRule::SnakeCase => snake_piece(c, index, is_upper(c)),
        RenameRule::ScreamingSnakeCase => if is_upper(c) && index > 0 {
            seq!['_', ascii_upper(c)]
        } else {
            seq![ascii_upper(c)]
        },
        RenameRule::KebabCase => if is_upper(c) && index > 0 {
            seq!['-', ascii_lower(c)]
        } else if c == '_' {
            seq!['-']
        } else {
            seq![ascii_lower(c)]
        },
        RenameRule::PascalCase => if c == '_' {
            Seq::empty()
        } else if index == 0 || after_underscore {
            seq![ascii_upper(c)]
        } else {
            seq![c]
        },
        RenameRule::CamelCase => if c == '_' {
            Seq::empty()
        } else if leading {
            seq![ascii_lower(c)]
        } else if after_underscore {
            seq![ascii_upper(c)]
        } else {
            seq![c]
        },
        RenameRule::Lowercase => seq![ascii_lower(c)],
        RenameRule::Uppercase => seq![ascii_upper(c)],
    }
}

/// The field name `s` converted by `rule`.
pub open spec fn renamed(rule: RenameRule, s: Seq<char>) -> Seq<char>
    decreases s.len(),
{
    if s.len() == 0 {
        Seq::empty()
    } else {
        renamed(rule, s.drop_last()) + rename_piece(
            rule,
            s.last(),
            s.len() - 1,
            s.len() >= 2 && s[s.len() - 2] == '_',
            all_underscores(s.drop_last()),
        )
    }
}

/// Appends what `c` at position `index` becomes under `rule`.
pub fn push_rename_piece(
    out: &mut String,
    rule: RenameRule,
    c: char,
    index: usize,
    after_underscore: bool,
    leading: bool,
    upper: bool,
)
    requires
        upper == is_upper(c),
    ensures
        final(out)@ == old(out)@ + rename_piece(rule, c, index as int, after_underscore, leading),
{
    match rule {
        RenameRule::SnakeCase => {
            if upper && index > 0 {
                push_char(out, '_');
            }
            push_char(out, to_ascii_lowercase(c));
        },
        RenameRule::ScreamingSnakeCase => {
            if upper && index > 0 {
                push_char(out, '_');
            }
            push_char(out, to_ascii_uppercase(c));
        },
        RenameRule::KebabCase => {
            if upper && index > 0 {
                push_char(out, '-');
                push_char(out, to_ascii_lowercase(c));
            } else if c == '_' {
                push_char(out, '-');
            } else {
                push_char(out, to_ascii_lowercase(c));
            }
        },
        RenameRule::PascalCase => {
            if c == '_' {
            } else if index == 0 || after_underscore {
                push_char(out, to_ascii_uppercase(c));
            } else {
                push_char(out, c);
            }
        },
        RenameRule::CamelCase => {
            if c == '_' {
            } else if leading {
                push_char(out, to_ascii_lowercase(c));
            } else if after_underscore {
                push_char(out, to_ascii_uppercase(c));
            } else {
                push_char(out, c);
            }
        },
        RenameRule::Lowercase => {
            push_char(out, to_ascii_lowercase(c));
        },
        RenameRule::Uppercase => {
            push_char(out, to_ascii_uppercase(c));
        },
    }
    assert(final(out)@ =~= old(out)@ + rename_piece(rule, c, index as int, after_underscore, leading));
}

/// Converts the field name `name` by `rule`.
pub fn rename(rule: RenameRule, name: &str) -> (r: String)
    ensures
        r@ == renamed(rule, name@),
{
    let cs = chars_of(name);
    let n = cs.len();
    let mut out = String::new();
    let mut after_underscore = false;
    let mut leading = true;
    for i in 0..n
        invariant
            n == cs@.len(),
            cs@ == name@,
            out@ == renamed(rule, cs@.take(i as int)),
            after_underscore == (i >= 1 && cs@[i - 1] == '_'),
            leading == all_underscores(cs@.take(i as int)),
    {
        let c = cs[i];
        let upper = is_uppercase(c);
        proof {
            let t = cs@.take(i + 1);
            assert(t.drop_last() =~= cs@.take(i as int));
            assert(t.last() == c);
            if i >= 1 {
                assert(t[t.len() - 2] == cs@[i - 1]);
            }
        }
        push_rename_piece(&mut out, rule, c, i, after_underscore, leading, upper);
        proof {
            let t = cs@.take(i + 1);
            if leading && c == '_' {
                assert forall|k: int| 0 <= k < t.len() implies #[trigger] t[k] == '_' by {
                    if k < i {
                        assert(t[k] == cs@.take(i as int)[k]);
                    }
                }
            }
            if !(leading && c == '_') {
                if c != '_' {
                    assert(t[i as int] != '_');
                } else {
                    let k = choose|k: int| 0 <= k < i && cs@.take(i as int)[k] != '_';
                    assert(t[k] != '_');
                }
            }
        }
        after_underscore = c == '_';
        leading = leading && c == '_';
    }
    assert(cs@.take(n as int) =~= cs@);
    out
}

/// The value of the last setting named `key`, if any.
pub open spec fn find_setting(settings: Seq<(String, String)>, key: Seq<char>) -> Option<Seq<char>>
    decreases settings.len(),
{
    if settings.len() == 0 {
        None
    } else if settings.last().0@ == key {
        Some(settings.last().1@)
    } else {
        find_setting(settings.drop_last(), key)
    }
}

fn find_setting_of(settings: &Vec<(String, String)>, key: &str) -> (r: Option<String>)
    ensures
        match find_setting(settings@, key@) {
            Some(v) => r matches Some(s) && s@ == v,
            None => r is None,
        },
{
    let mut key_s = String::new();
    push_str(&mut key_s, key);
    let mut r: Option<String> = None;
    let n = settings.len();
    for i in 0..n
        invariant
            n == settings@.len(),
            key_s@ == key@,
            match find_setting(settings@.take(i as int), key@) {
                Some(v) => r matches Some(s) && s@ == v,
                None => r is None,
            },
    {
        proof {
            assert(settings@.take(i + 1).drop_last() =~= settings@.take(i as int));
            assert(settings@.take(i + 1).last() == settings@[i as int]);
        }
        if settings[i].0 == key_s {
            r = Some(settings[i].1.clone());
        }
    }
    assert(settings@.take(n as int) =~= settings@);
    r
}

/// The rule a `rename_all` value names, if it is one of the supported values.
pub open spec fn rule_named(v: Seq<char>) -> Option<RenameRule> {
    if v == "snake_case"@ {
        Some(RenameRule::SnakeCase)
    } else if v == "SCREAMING_SNAKE_CASE"@ {
        Some(RenameRule::ScreamingSnakeCase)
    } else if v == "kebab-case"@ {
        Some(RenameRule::KebabCase)
    } else if v == "camelCase"@ {
        Some(RenameRule::CamelCase)
    } else if v == "PascalCase"@ {
        Some(RenameRule::PascalCase)
    } else if v == "lowercase"@ {
        Some(RenameRule::Lowercase)
    } else if v == "UPPERCASE"@ {
        Some(RenameRule::Uppercase)
    } else {
        None
    }
}

fn is_text(s: &String, literal: &str) -> (b: bool)
    ensures
        b == (s@ == literal@),
{
    let mut l = String::new();
    push_str(&mut l, literal);
    *s == l
}

fn rule_of(v: &String) -> (r: Option<RenameRule>)
    ensures
        r == rule_named(v@),
{
    if is_text(v, "snake_case") {
        Some(RenameRule::SnakeCase)
    } else if is_text(v, "SCREAMING_SNAKE_CASE") {
        Some(RenameRule::ScreamingSnakeCase)
    } else if is_text(v, "kebab-case") {
        Some(RenameRule::KebabCase)
    } else if is_text(v, "camelCase") {
        Some(RenameRule::CamelCase)
    } else if is_text(v, "PascalCase") {
        Some(RenameRule::PascalCase)
    } else if is_text(v, "lowercase") {
        Some(RenameRule::Lowercase)
    } else if is_text(v, "UPPERCASE") {
        Some(RenameRule::Uppercase)
    } else {
        None
    }
}

/// A field of a mapped struct with its settings.
#[derive(Debug, Clone)]
pub struct FieldSpec {
    /// The field's name.
    pub name: String,
    /// `column = "..."`: the SQL column name, overriding `rename_all`.
    pub column: Option<String>,
    /// `skip_insert`: left out of `INSERT`, kept in `SELECT`.
    pub skip_insert: bool,
    /// `skip`: left out of `SELECT` and `INSERT`.
    pub skip: bool,
}

/// The SQL column of a field: its `column` setting, else its name converted
/// by the `rename_all` rule, else its name.
pub open spec fn column_of(rule: Option<RenameRule>, f: FieldSpec) -> Seq<char> {
    match f.column {
        Some(c) => c@,
        None => match rule {
            Some(r) => renamed(r, f.name@),
            None => f.name@,
        },
    }
}

/// The columns read by `SELECT`: every field not marked `skip`, in order.
pub open spec fn select_columns(rule: Option<RenameRule>, fields: Seq<FieldSpec>) -> Seq<Seq<char>>
    decreases fields.len(),
{
    if fields.len() == 0 {
        Seq::empty()
    } else {
        let rest = select_columns(rule, fields.drop_last());
        if fields.last().skip {
            rest
        } else {
            rest.push(column_of(rule, fields.last()))
        }
    }
}

/// The columns written by `INSERT`: every field marked neither `skip` nor
/// `skip_insert`, in order.
pub open spec fn insert_columns(rule: Option<RenameRule>, fields: Seq<FieldSpec>) -> Seq<Seq<char>>
    decreases fields.len(),
{
    if fields.len() == 0 {
        Seq::empty()
    } else {
        let rest = insert_columns(rule, fields.drop_last());
        if fields.last().skip || fields.last().skip_insert {
            rest
        } else {
            rest.push(column_of(rule, fields.last()))
        }
    }
}

/// The conversion the settings ask for: the rule named by the last
/// `rename_all` setting; none when there is no such setting or its value
/// names no supported rule (such a value changes no name).
pub open spec fn rename_rule_of(settings: Seq<(String, String)>) -> Option<RenameRule> {
    match find_setting(settings, "rename_all"@) {
        Some(v) => rule_named(v),
        None => None,
    }
}

/// How a mapped struct meets its table: the table that `SELECT` reads and
/// the table that `INSERT` writes (same schema and name, their own columns).
#[derive(Debug, Clone)]
pub struct TableMapping {
    /// The columns read back, in field order.
    pub select: TableInfo,
    /// The columns written, in field order.
    pub insert: TableInfo,
}

fn column_for(rule: Option<RenameRule>, f: &FieldSpec) -> (r: String)
    ensures
        r@ == column_of(rule, *f),
{
    match &f.column {
        Some(c) => c.clone(),
        None => match rule {
            Some(rl) => rename(rl, f.name.as_str()),
            None => f.name.clone(),
        },
    }
}

fn copy_info(t: &TableInfo) -> (r: TableInfo)
    ensures
        r.schema@ == t.schema@,
        r.table@ == t.table@,
{
    TableInfo { schema: t.schema.clone(), table: t.table.clone(), columns: Vec::new() }
}

/// The table mapping of a struct with field-level settings.
///
/// The table and schema come from the struct's settings as in
/// [`table_definition`](crate::naming::table_definition). Each field's
/// column is its `column` setting, else its name converted by the
/// `rename_all` rule, else its name. `SELECT` reads the fields not marked
/// `skip`; `INSERT` writes those marked neither `skip` nor `skip_insert`.
/// A `rename_all` value outside the supported ones renames nothing. Only
/// structs with named fields can be mapped.
pub fn table_mapping(
    struct_name: &str,
    settings: &Vec<(String, String)>,
    shape: ItemShape,
    fields: &Vec<FieldSpec>,
) -> (r: Result<TableMapping, String>)
    ensures
        match shape {
            ItemShape::NotStruct => r matches Err(m) && m@ == not_struct_message(),
            ItemShape::OtherStruct => r matches Err(m) && m@ == unnamed_fields_message(),
            ItemShape::NamedStruct => r matches Ok(mp) && {
                let rule = rename_rule_of(settings@);
                &&& mp.select.table@ == last_setting(settings@, "table"@, snake_case(struct_name@))
                &&& mp.select.schema@ == last_setting(settings@, "schema"@, "main"@)
                &&& mp.insert.table@ == mp.select.table@
                &&& mp.insert.schema@ == mp.select.schema@
                &&& views(mp.select.columns@) == select_columns(rule, fields@)
                &&& views(mp.insert.columns@) == insert_columns(rule, fields@)
            },
        },
{
    match shape {
        ItemShape::NotStruct => {
            let mut m = String::new();
            push_str(&mut m, "#[derive(Table)] only supports structs");
            return Err(m);
        },
        ItemShape::OtherStruct => {
            let mut m = String::new();
            push_str(&mut m, "#[derive(Table)] only supports structs with named fields");
            return Err(m);
        },
        ItemShape::NamedStruct => {},
    }
    let rule = match find_setting_of(settings, "rename_all") {
        Some(v) => rule_of(&v),
        None => None,
    };
    let default_table = to_snake_case(struct_name);
    let table = setting_or(settings, "table", default_table);
    let mut main = String::new();
    push_str(&mut main, "main");
    let schema = setting_or(settings, "schema", main);
    let mut select: Vec<String> = Vec::new();
    let mut insert: Vec<String> = Vec::new();
    let n = fields.len();
    for i in 0..n
        invariant
            n == fields@.len(),
            views(select@) == select_columns(rule, fields@.take(i as int)),
            views(insert@) == insert_columns(rule, fields@.take(i as int)),
    {
        let f = &fields[i];
        proof {
            assert(fields@.take(i + 1).drop_last() =~= fields@.take(i as int));
            assert(fields@.take(i + 1).last() == fields@[i as int]);
        }
        if !f.skip {
            let c = column_for(rule, f);
            select.push(c);
            assert(views(select@) =~= select_columns(rule, fields@.take(i + 1)));
            if !f.skip_insert {
                let c2 = column_for(rule, f);
                insert.push(c2);
                assert(views(insert@) =~= insert_columns(rule, fields@.take(i + 1)));
            }
        }
    }
    assert(fields@.take(n as int) =~= fields@);
    let select_info = TableInfo { schema, table, columns: select };
    let mut insert_info = copy_info(&select_info);
    insert_info.columns = insert;
    Ok(TableMapping { select: select_info, insert: insert_info })
}

/// The field is written by `INSERT`: marked neither `skip` nor `skip_insert`.
pub open spec fn is_inserted(f: FieldSpec) -> bool {
    !f.skip && !f.skip_insert
}

/// The field is read by `SELECT`: not marked `skip`.
pub open spec fn is_selected(f: FieldSpec) -> bool {
    !f.skip
}

/// The positions of the fields that `INSERT` writes, in field order.
pub open spec fn inserted_positions(fields: Seq<FieldSpec>) -> Seq<int>
    decreases fields.len(),
{
    if fields.len() == 0 {
        Seq::empty()
    } else {
        let rest = inserted_positions(fields.drop_last());
        if is_inserted(fields.last()) {
            rest.push(fields.len() - 1)
        } else {
            rest
        }
    }
}

/// The positions of the fields that `SELECT` reads, in field order.
pub open spec fn selected_positions(fields: Seq<FieldSpec>) -> Seq<int>
    decreases fields.len(),
{
    if fields.len() == 0 {
        Seq::empty()
    } else {
        let rest = selected_positions(fields.drop_last());
        if is_selected(fields.last()) {
            rest.push(fields.len() - 1)
        } else {
            rest
        }
    }
}

/// The values an `INSERT` binds, given one value per field in field order:
/// those of the fields it writes, in field order.
pub open spec fn insert_values_of<V>(fields: Seq<FieldSpec>, values: Seq<V>) -> Seq<V> {
    inserted_positions(fields).map_values(|i: int| values[i])
}

/// The column order contract: the `k`-th `INSERT` column and the `k`-th
/// bound value come from the same field, and likewise the `k`-th `SELECT`
/// column is that of the `k`-th field read back; no other field takes part.
pub proof fn lemma_column_order(rule: Option<RenameRule>, fields: Seq<FieldSpec>)
    ensures
        insert_columns(rule, fields) == inserted_positions(fields).map_values(
            |i: int| column_of(rule, fields[i]),
        ),
        select_columns(rule, fields) == selected_positions(fields).map_values(
            |i: int| column_of(rule, fields[i]),
        ),
        forall|k: int|
            0 <= k < inserted_positions(fields).len() ==> 0 <= #[trigger] inserted_positions(fields)[k]
                < fields.len() && is_inserted(fields[inserted_positions(fields)[k]]),
        forall|k: int|
            0 <= k < selected_positions(fields).len() ==> 0 <= #[trigger] selected_positions(fields)[k]
                < fields.len() && is_selected(fields[selected_positions(fields)[k]]),
        forall|a: int, b: int|
            0 <= a < b < inserted_positions(fields).len() ==> #[trigger] inserted_positions(fields)[a]
                < #[trigger] inserted_positions(fields)[b],
        forall|a: int, b: int|
            0 <= a < b < selected_positions(fields).len() ==> #[trigger] selected_positions(fields)[a]
                < #[trigger] selected_positions(fields)[b],
    decreases fields.len(),
{
    if fields.len() > 0 {
        let init = fields.drop_last();
        lemma_column_order(rule, init);
        let ip = inserted_positions(fields);
        let sp = selected_positions(fields);
        assert forall|i: int| 0 <= i < init.len() implies #[trigger] init[i] == fields[i] by {}
        assert(insert_columns(rule, fields) =~= ip.map_values(|i: int| column_of(rule, fields[i])));
        assert(select_columns(rule, fields) =~= sp.map_values(|i: int| column_of(rule, fields[i])));
    }
}

/// The values an `INSERT` binds, from one value per field in field order.
pub fn insert_values<V>(fields: &Vec<FieldSpec>, values: Vec<V>) -> (r: Vec<V>)
    requires
        values@.len() == fields@.len(),
    ensures
        r@ == insert_values_of(fields@, values@),
{
    let ghost all = values@;
    let mut values = values;
    let mut out: Vec<V> = Vec::new();
    let n = fields.len();
    for i in 0..n
        invariant
            n == fields@.len() == all.len(),
            values@ == all.skip(i as int),
            out@ == insert_values_of(fields@.take(i as int), all),
    {
        let v = values.remove(0);
        proof {
            let t = fields@.take(i + 1);
            assert(t.drop_last() =~= fields@.take(i as int));
            assert(t.last() == fields@[i as int]);
            assert(values@ =~= all.skip(i + 1));
            assert(v == all[i as int]);
        }
        if !fields[i].skip && !fields[i].skip_insert {
            out.push(v);
        }
        assert(out@ =~= insert_values_of(fields@.take(i + 1), all));
    }
    assert(fields@.take(n as int) =~= fields@);
    out
}

/// No ASCII small letter occurs in `s`.
pub open spec fn has_no_ascii_lower(s: Seq<char>) -> bool {
    forall|i: int| 0 <= i < s.len() ==> !('a' <= #[trigger] s[i] && s[i] <= 'z')
}

/// No ASCII capital letter occurs in `s`.
pub open spec fn has_no_ascii_upper(s: Seq<char>) -> bool {
    forall|i: int| 0 <= i < s.len() ==> !('A' <= #[trigger] s[i] && s[i] <= 'Z')
}

/// No `_` occurs in `s`.
pub open spec fn has_no_underscore(s: Seq<char>) -> bool {
    forall|i: int| 0 <= i < s.len() ==> #[trigger] s[i] != '_'
}

proof fn lemma_renamed_all(rule: RenameRule, s: Seq<char>, p: spec_fn(char) -> bool)
    requires
        forall|c: char, i: int, a: bool, l: bool, k: int|
            0 <= k < rename_piece(rule, c, i, a, l).len() ==> p(#[trigger] rename_piece(rule, c, i, a, l)[k]),
    ensures
        forall|k: int| 0 <= k < renamed(rule, s).len() ==> p(#[trigger] renamed(rule, s)[k]),
    decreases s.len(),
{
    if s.len() > 0 {
        lemma_renamed_all(rule, s.drop_last(), p);
        let head = renamed(rule, s.drop_last());
        let piece = rename_piece(
            rule,
            s.last(),
            s.len() - 1,
            s.len() >= 2 && s[s.len() - 2] == '_',
            all_underscores(s.drop_last()),
        );
        assert forall|k: int| 0 <= k < renamed(rule, s).len() implies p(#[trigger] renamed(rule, s)[k]) by {
            if k < head.len() {
                assert(renamed(rule, s)[k] == head[k]);
            } else {
                assert(renamed(rule, s)[k] == piece[k - head.len()]);
            }
        }
    }
}

/// The number of `_` in `s`.
pub open spec fn underscore_count(s: Seq<char>) -> nat
    decreases s.len(),
{
    if s.len() == 0 {
        0
    } else {
        underscore_count(s.drop_last()) + if s.last() == '_' {
            1nat
        } else {
            0nat
        }
    }
}

proof fn lemma_renamed_len(rule: RenameRule, s: Seq<char>)
    ensures
        (rule == RenameRule::CamelCase || rule == RenameRule::PascalCase) ==> renamed(rule, s).len()
            + underscore_count(s) == s.len(),
        (rule == RenameRule::SnakeCase || rule == RenameRule::ScreamingSnakeCase || rule
            == RenameRule::KebabCase) ==> renamed(rule, s).len() == s.len() + inner_capitals(s),
        (rule == RenameRule::Lowercase || rule == RenameRule::Uppercase) ==> renamed(rule, s).len()
            == s.len(),
    decreases s.len(),
{
    if s.len() > 0 {
        lemma_renamed_len(rule, s.drop_last());
    }
}

proof fn lemma_renamed_prefix(rule: RenameRule, s: Seq<char>, k: int)
    requires
        0 <= k <= s.len(),
    ensures
        renamed(rule, s.take(k)).len() <= renamed(rule, s).len(),
        renamed(rule, s).take(renamed(rule, s.take(k)).len() as int) == renamed(rule, s.take(k)),
    decreases s.len(),
{
    if k == s.len() {
        assert(s.take(k) =~= s);
        assert(renamed(rule, s).take(renamed(rule, s).len() as int) =~= renamed(rule, s));
    } else {
        lemma_renamed_prefix(rule, s.drop_last(), k);
        assert(s.drop_last().take(k) =~= s.take(k));
        let head = renamed(rule, s.drop_last());
        let t = renamed(rule, s.take(k));
        assert(renamed(rule, s).take(t.len() as int) =~= head.take(t.len() as int));
    }
}

proof fn lemma_renamed_first(rule: RenameRule, s: Seq<char>)
    requires
        s.len() > 0,
        rename_piece(rule, s[0], 0, false, true).len() > 0,
    ensures
        renamed(rule, s).len() > 0,
        renamed(rule, s)[0] == rename_piece(rule, s[0], 0, false, true)[0],
{
    lemma_renamed_prefix(rule, s, 1);
    let t = s.take(1);
    assert(t.drop_last() =~= Seq::<char>::empty());
    assert(all_underscores(t.drop_last()));
    assert(renamed(rule, t.drop_last()) =~= Seq::<char>::empty());
    assert(renamed(rule, t) =~= rename_piece(rule, s[0], 0, false, true));
    assert(renamed(rule, s).take(renamed(rule, t).len() as int)[0] == renamed(rule, s)[0]);
}

/// Each supported `rename_all` value names the conversion it spells.
proof fn lemma_rule_names()
    ensures
        rule_named("snake_case"@) == Some(RenameRule::SnakeCase),
        rule_named("SCREAMING_SNAKE_CASE"@) == Some(RenameRule::ScreamingSnakeCase),
        rule_named("kebab-case"@) == Some(RenameRule::KebabCase),
        rule_named("camelCase"@) == Some(RenameRule::CamelCase),
        rule_named("PascalCase"@) == Some(RenameRule::PascalCase),
        rule_named("lowercase"@) == Some(RenameRule::Lowercase),
        rule_named("UPPERCASE"@) == Some(RenameRule::Uppercase),
{
    reveal_strlit("snake_case");
    reveal_strlit("SCREAMING_SNAKE_CASE");
    reveal_strlit("kebab-case");
    reveal_strlit("camelCase");
    reveal_strlit("PascalCase");
    reveal_strlit("lowercase");
    reveal_strlit("UPPERCASE");
    let a = "snake_case"@;
    let b = "SCREAMING_SNAKE_CASE"@;
    let c = "kebab-case"@;
    let d = "camelCase"@;
    let e = "PascalCase"@;
    let f = "lowercase"@;
    let g = "UPPERCASE"@;
    assert(a.len() == 10 && b.len() == 20 && c.len() == 10 && d.len() == 9 && e.len() == 10
        && f.len() == 9 && g.len() == 9);
    assert(a[0] == 's' && c[0] == 'k' && d[0] == 'c' && e[0] == 'P' && f[0] == 'l' && g[0] == 'U');
    assert(a != b && b != c && b != d && b != e && b != f && b != g);
    assert(a != c && a != e && c != e);
    assert(d != f && d != g && f != g);
}

/// What each supported `rename_all` value does to a field without a
/// `column` setting, stated on the resulting column `c` of field name `n`:
///
/// - `SCREAMING_SNAKE_CASE`: no ASCII small letter is left, and one `_` is
///   added before each capital after the first character;
/// - `UPPERCASE`: no ASCII small letter is left, and the length is kept;
/// - `snake_case`: no ASCII capital is left, and one `_` is added before
///   each capital after the first character;
/// - `lowercase`: no ASCII capital is left, and the length is kept;
/// - `kebab-case`: no ASCII capital and no `_` are left, one `-` standing
///   before each inner capital;
/// - `camelCase`: every `_` is dropped and no other character, and a name starting with a small letter
///   keeps it;
/// - `PascalCase`: every `_` is dropped and no other character, and a name starting with a small letter
///   starts with a capital;
/// - any other value, or no `rename_all` at all: the column is the name.
pub proof fn lemma_rename_all_values(settings: Seq<(String, String)>, f: FieldSpec)
    requires
        f.column is None,
    ensures
        ({
            let c = column_of(rename_rule_of(settings), f);
            let n = f.name@;
            let v = find_setting(settings, "rename_all"@);
            &&& v == Some("SCREAMING_SNAKE_CASE"@) ==> has_no_ascii_lower(c) && c.len() == n.len()
                + inner_capitals(n)
            &&& v == Some("UPPERCASE"@) ==> has_no_ascii_lower(c) && c.len() == n.len()
            &&& v == Some("snake_case"@) ==> has_no_ascii_upper(c) && c.len() == n.len() + inner_capitals(
                n,
            )
            &&& v == Some("lowercase"@) ==> has_no_ascii_upper(c) && c.len() == n.len()
            &&& v == Some("kebab-case"@) ==> has_no_ascii_upper(c) && has_no_underscore(c) && c.len()
                == n.len() + inner_capitals(n)
            &&& v == Some("camelCase"@) ==> has_no_underscore(c) && c.len() + underscore_count(n)
                == n.len() && (n.len() > 0 && 'a' <= n[0] && n[0]
                <= 'z' ==> c.len() > 0 && c[0] == n[0])
            &&& v == Some("PascalCase"@) ==> has_no_underscore(c) && c.len() + underscore_count(n)
                == n.len() && (n.len() > 0 && 'a' <= n[0] && n[0]
                <= 'z' ==> c.len() > 0 && 'A' <= c[0] && c[0] <= 'Z')
            &&& v is None ==> c == n
            &&& (v matches Some(w) && w != "SCREAMING_SNAKE_CASE"@ && w != "UPPERCASE"@ && w
                != "snake_case"@ && w != "lowercase"@ && w != "kebab-case"@ && w != "camelCase"@ && w
                != "PascalCase"@) ==> c == n
        }),
{
    reveal_strlit("snake_case");
    reveal_strlit("SCREAMING_SNAKE_CASE");
    reveal_strlit("kebab-case");
    reveal_strlit("camelCase");
    reveal_strlit("PascalCase");
    reveal_strlit("lowercase");
    reveal_strlit("UPPERCASE");
    let n = f.name@;
    let lower = |ch: char| !('a' <= ch && ch <= 'z');
    let upper = |ch: char| !('A' <= ch && ch <= 'Z');
    let no_us = |ch: char| ch != '_';
    let c = column_of(rename_rule_of(settings), f);
    let v = find_setting(settings, "rename_all"@);
    match rename_rule_of(settings) {
        Some(rule) => {
            assert(c == renamed(rule, n));
            lemma_renamed_len(rule, n);
            if rule == RenameRule::ScreamingSnakeCase || rule == RenameRule::Uppercase {
                assert forall|ch: char, i: int, a: bool, l: bool, k: int|
                    0 <= k < rename_piece(rule, ch, i, a, l).len() implies lower(
                    #[trigger] rename_piece(rule, ch, i, a, l)[k],
                ) by {}
                lemma_renamed_all(rule, n, lower);
                assert(has_no_ascii_lower(c)) by {
                    assert forall|k: int| 0 <= k < c.len() implies !('a' <= #[trigger] c[k] && c[k] <= 'z') by {
                        assert(lower(renamed(rule, n)[k]));
                    }
                }
            }
            if rule == RenameRule::SnakeCase || rule == RenameRule::Lowercase || rule
                == RenameRule::KebabCase {
                assert forall|ch: char, i: int, a: bool, l: bool, k: int|
                    0 <= k < rename_piece(rule, ch, i, a, l).len() implies upper(
                    #[trigger] rename_piece(rule, ch, i, a, l)[k],
                ) by {}
                lemma_renamed_all(rule, n, upper);
                assert(has_no_ascii_upper(c)) by {
                    assert forall|k: int| 0 <= k < c.len() implies !('A' <= #[trigger] c[k] && c[k] <= 'Z') by {
                        assert(upper(renamed(rule, n)[k]));
                    }
                }
            }
            if rule == RenameRule::KebabCase || rule == RenameRule::CamelCase || rule
                == RenameRule::PascalCase {
                assert forall|ch: char, i: int, a: bool, l: bool, k: int|
                    0 <= k < rename_piece(rule, ch, i, a, l).len() implies no_us(
                    #[trigger] rename_piece(rule, ch, i, a, l)[k],
                ) by {}
                lemma_renamed_all(rule, n, no_us);
                assert(has_no_underscore(c)) by {
                    assert forall|k: int| 0 <= k < c.len() implies #[trigger] c[k] != '_' by {
                        assert(no_us(renamed(rule, n)[k]));
                    }
                }
            }
            if (rule == RenameRule::CamelCase || rule == RenameRule::PascalCase) && n.len() > 0 && 'a'
                <= n[0] && n[0] <= 'z' {
                lemma_renamed_first(rule, n);
            }
        },
        None => {},
    }
    lemma_rule_names();
}

} // verus!
