//! Helpers for safely embedding identifiers and string literals into SQL.
//!
//! DuckDB does not accept bind parameters in every position (notably the
//! `ATTACH ... AS <name>` alias and the `AT (TIMESTAMP => '<literal>')`
//! clause). Where a value must be interpolated it is either validated as a
//! strict SQL identifier ([`validate_identifier`]) or escaped as the body of a
//! single-quoted string literal ([`escape_sql_string`]).

use vstd::prelude::*;

use vstd::utf8::{
    encode_scalar, encode_utf8, is_ascii_chars, is_ascii_chars_encode_utf8, leading_byte_width_2,
    leading_byte_width_3, leading_byte_width_4,
};

use crate::error::DuckLakeError;
use crate::text::{chars_of, decimal, push_char, push_decimal, push_str};

verus! {

broadcast use vstd::string::group_string_axioms;

/// Largest number of connections a pool may be configured with.
pub const MAX_POOL_SIZE: u32 = 1024;

/// Longest identifier, in bytes, that [`validate_identifier`] accepts.
pub const MAX_IDENTIFIER_BYTES: usize = 63;

/// `c` may begin an identifier: an ASCII letter or `_`.
pub open spec fn is_ident_start(c: char) -> bool {
    ('a' <= c && c <= 'z') || ('A' <= c && c <= 'Z') || c == '_'
}

/// `c` may appear in an identifier: an ASCII letter, an ASCII digit or `_`.
pub open spec fn is_ident_char(c: char) -> bool {
    is_ident_start(c) || ('0' <= c && c <= '9')
}

/// `s` matches `^[A-Za-z_][A-Za-z0-9_]*$`.
pub open spec fn matches_identifier_pattern(s: Seq<char>) -> bool {
    &&& s.len() > 0
    &&& is_ident_start(s[0])
    &&& forall|i: int| 0 <= i < s.len() ==> is_ident_char(#[trigger] s[i])
}

/// The length in bytes of the UTF-8 encoding of `s`, as `str::len` reports it.
pub open spec fn byte_len(s: Seq<char>) -> usize {
    encode_utf8(s).len() as usize
}

/// `name` is accepted by [`validate_identifier`]: it matches the identifier
/// pattern and its UTF-8 encoding has at most 63 bytes.
pub open spec fn is_valid_identifier(name: Seq<char>) -> bool {
    &&& matches_identifier_pattern(name)
    &&& byte_len(name) <= MAX_IDENTIFIER_BYTES
}

/// Message for an empty identifier.
pub open spec fn empty_identifier_message(kind: Seq<char>) -> Seq<char> {
    kind + " must not be empty"@
}

/// Message for an identifier whose encoding has `bytes` bytes, more than allowed.
pub open spec fn long_identifier_message(kind: Seq<char>, name: Seq<char>, bytes: nat) -> Seq<char> {
    kind + " '"@ + name + "' is too long ("@ + decimal(bytes) + " bytes; maximum is 63)"@
}

/// Message for an identifier with a character outside the pattern.
pub open spec fn bad_identifier_message(kind: Seq<char>, name: Seq<char>) -> Seq<char> {
    kind + " '"@ + name
        + "' is not a valid SQL identifier; only ASCII letters, digits, and underscores are allowed (and it must not start with a digit)"@
}

/// The result [`validate_identifier`] gives for `name`, with `kind` naming the
/// value in error messages.
pub open spec fn identifier_check(name: Seq<char>, kind: Seq<char>) -> Result<(), Seq<char>> {
    if name.len() == 0 {
        Err(empty_identifier_message(kind))
    } else if byte_len(name) > MAX_IDENTIFIER_BYTES {
        Err(long_identifier_message(kind, name, byte_len(name) as nat))
    } else if !matches_identifier_pattern(name) {
        Err(bad_identifier_message(kind, name))
    } else {
        Ok(())
    }
}

/// Validate that `name` is a safe SQL identifier suitable for being
/// interpolated directly into a SQL statement (a catalog alias, a schema name
/// or a table name).
///
/// A safe identifier matches `^[A-Za-z_][A-Za-z0-9_]*$` and is at most 63
/// bytes long. `kind` names the value in the error message.
pub fn validate_identifier(name: &str, kind: &str) -> (r: Result<(), DuckLakeError>)
    ensures
        r is Ok <==> is_valid_identifier(name@),
        match identifier_check(name@, kind@) {
            Ok(()) => r is Ok,
            Err(msg) => r matches Err(DuckLakeError::Config(m)) && m@ == msg,
        },
{
    if name.is_empty() {
        let mut m = String::new();
        push_str(&mut m, kind);
        push_str(&mut m, " must not be empty");
        assert(m@ =~= empty_identifier_message(kind@));
        return Err(DuckLakeError::Config(m));
    }
    let nbytes = name.len();
    assert(nbytes == byte_len(name@));
    if nbytes > MAX_IDENTIFIER_BYTES {
        let mut m = String::new();
        push_str(&mut m, kind);
        push_str(&mut m, " '");
        push_str(&mut m, name);
        push_str(&mut m, "' is too long (");
        push_decimal(&mut m, nbytes as u64);
        push_str(&mut m, " bytes; maximum is 63)");
        assert(m@ =~= long_identifier_message(kind@, name@, byte_len(name@) as nat));
        return Err(DuckLakeError::Config(m));
    }
    let cs = chars_of(name);
    let mut valid = true;
    let mut i: usize = 0;
    while i < cs.len()
        invariant
            i <= cs.len(),
            cs@ == name@,
            cs.len() > 0,
            valid <==> ((i > 0 ==> is_ident_start(cs@[0])) && forall|j: int| 0 <= j < i ==> is_ident_char(#[trigger] cs@[j])),
        decreases cs.len() - i,
    {
        let c = cs[i];
        let ok = ('a' <= c && c <= 'z') || ('A' <= c && c <= 'Z') || c == '_' || ('0' <= c && c <= '9');
        let start_ok = i != 0 || ('a' <= c && c <= 'z') || ('A' <= c && c <= 'Z') || c == '_';
        valid = valid && ok && start_ok;
        i = i + 1;
    }
    if !valid {
        let mut m = String::new();
        push_str(&mut m, kind);
        push_str(&mut m, " '");
        push_str(&mut m, name);
        push_str(&mut m, "' is not a valid SQL identifier; only ASCII letters, digits, and underscores are allowed (and it must not start with a digit)");
        assert(m@ =~= bad_identifier_message(kind@, name@));
        return Err(DuckLakeError::Config(m));
    }
    Ok(())
}

/// What one character of the input becomes in an escaped literal body.
pub open spec fn escape_char(c: char) -> Seq<char> {
    if c == '\'' {
        seq!['\'', '\'']
    } else if c == '\\' {
        seq!['\\', '\\']
    } else {
        seq![c]
    }
}

/// `s` with every `'` doubled and every `\` doubled.
pub open spec fn escaped(s: Seq<char>) -> Seq<char>
    decreases s.len(),
{
    if s.len() == 0 {
        Seq::empty()
    } else {
        escape_char(s[0]) + escaped(s.skip(1))
    }
}

/// Escaping distributes over concatenation.
pub proof fn lemma_escaped_concat(a: Seq<char>, b: Seq<char>)
    ensures
        escaped(a + b) == escaped(a) + escaped(b),
    decreases a.len(),
{
    if a.len() == 0 {
        assert(a + b =~= b);
    } else {
        lemma_escaped_concat(a.skip(1), b);
        assert((a + b).skip(1) =~= a.skip(1) + b);
        assert(escape_char(a[0]) + (escaped(a.skip(1)) + escaped(b)) =~= (escape_char(a[0])
            + escaped(a.skip(1))) + escaped(b));
    }
}

/// Escape `s` for safe interpolation into a SQL single-quoted string literal.
///
/// Every `'` becomes `''` and every backslash becomes `\\`. The returned
/// string is meant to be wrapped in single quotes by the caller.
pub fn escape_sql_string(s: &str) -> (r: String)
    ensures
        r@ == escaped(s@),
{
    let cs = chars_of(s);
    let mut out = String::new();
    let mut i: usize = 0;
    while i < cs.len()
        invariant
            i <= cs.len(),
            cs@ == s@,
            out@ == escaped(cs@.take(i as int)),
        decreases cs.len() - i,
    {
        let c = cs[i];
        if c == '\'' {
            push_char(&mut out, '\'');
            push_char(&mut out, '\'');
        } else if c == '\\' {
            push_char(&mut out, '\\');
            push_char(&mut out, '\\');
        } else {
            push_char(&mut out, c);
        }
        proof {
            let c0 = cs@[i as int];
            assert(cs@.take(i + 1) =~= cs@.take(i as int) + seq![c0]);
            lemma_escaped_concat(cs@.take(i as int), seq![c0]);
            assert(seq![c0].skip(1) =~= Seq::<char>::empty());
            assert(escaped(seq![c0].skip(1)) =~= Seq::<char>::empty());
            assert(escaped(seq![c0]) =~= escape_char(c0));
        }
        i = i + 1;
    }
    proof {
        assert(cs@.take(cs@.len() as int) =~= cs@);
    }
    out
}

/// `t` can stand between two single quotes as one SQL string literal: read
/// from the left, every `'` is immediately followed by a second `'`, so no
/// quote in `t` ends the literal.
pub open spec fn is_literal_body(t: Seq<char>) -> bool
    decreases t.len(),
{
    if t.len() == 0 {
        true
    } else if t[0] == '\'' {
        t.len() >= 2 && t[1] == '\'' && is_literal_body(t.skip(2))
    } else {
        is_literal_body(t.skip(1))
    }
}

/// Reads back an escaped literal body: a doubled `'` or a doubled `\` stands
/// for one such character, every other character for itself.
pub open spec fn unescaped(t: Seq<char>) -> Seq<char>
    decreases t.len(),
{
    if t.len() == 0 {
        Seq::empty()
    } else if t.len() >= 2 && ((t[0] == '\'' && t[1] == '\'') || (t[0] == '\\' && t[1] == '\\')) {
        seq![t[0]] + unescaped(t.skip(2))
    } else {
        seq![t[0]] + unescaped(t.skip(1))
    }
}

/// Whatever `s` holds, its escaped form cannot end the surrounding string
/// literal early: no text of `s` can escape into the SQL statement.
pub proof fn lemma_escaped_is_literal_body(s: Seq<char>)
    ensures
        is_literal_body(escaped(s)),
    decreases s.len(),
{
    if s.len() > 0 {
        lemma_escaped_is_literal_body(s.skip(1));
        let e = escaped(s);
        let rest = escaped(s.skip(1));
        if s[0] == '\'' {
            assert(e.skip(2) =~= rest);
        } else if s[0] == '\\' {
            assert(e.skip(1) =~= seq!['\\'] + rest);
            assert(e.skip(1).skip(1) =~= rest);
            assert(is_literal_body(e.skip(1)));
        } else {
            assert(e.skip(1) =~= rest);
        }
    }
}

/// Escaping loses nothing: reading the escaped text back gives the input.
pub proof fn lemma_unescape_escaped(s: Seq<char>)
    ensures
        unescaped(escaped(s)) == s,
    decreases s.len(),
{
    if s.len() == 0 {
    } else {
        lemma_unescape_escaped(s.skip(1));
        let e = escaped(s);
        let rest = escaped(s.skip(1));
        if s[0] == '\'' || s[0] == '\\' {
            assert(e.skip(2) =~= rest);
        } else {
            assert(e.skip(1) =~= rest);
            if rest.len() > 0 {
                assert(e[1] == rest[0]);
            }
        }
        assert(s =~= seq![s[0]] + s.skip(1));
    }
}

/// The number of `'` and `\` characters in `s`.
pub open spec fn special_count(s: Seq<char>) -> nat
    decreases s.len(),
{
    if s.len() == 0 {
        0
    } else {
        (if s[0] == '\'' || s[0] == '\\' {
            1nat
        } else {
            0nat
        }) + special_count(s.skip(1))
    }
}

/// Escaping adds exactly one character for each `'` and each `\`.
pub proof fn lemma_escaped_len(s: Seq<char>)
    ensures
        escaped(s).len() == s.len() + special_count(s),
    decreases s.len(),
{
    if s.len() > 0 {
        lemma_escaped_len(s.skip(1));
    }
}

/// `[i, j)` is a maximal run of `'` in `t`.
pub open spec fn quote_run(t: Seq<char>, i: int, j: int) -> bool {
    &&& 0 <= i < j <= t.len()
    &&& forall|k: int| i <= k < j ==> #[trigger] t[k] == '\''
    &&& (i == 0 || t[i - 1] != '\'')
    &&& (j == t.len() || t[j] != '\'')
}

proof fn lemma_literal_body_runs(t: Seq<char>, i: int, j: int)
    requires
        is_literal_body(t),
        quote_run(t, i, j),
    ensures
        (j - i) % 2 == 0,
    decreases t.len(),
{
    if t[0] != '\'' {
        let u = t.skip(1);
        assert(i >= 1);
        assert forall|k: int| i - 1 <= k < j - 1 implies #[trigger] u[k] == '\'' by {
            assert(u[k] == t[k + 1]);
        }
        if i - 1 > 0 {
            assert(u[i - 2] == t[i - 1]);
        }
        if j - 1 < u.len() {
            assert(u[j - 1] == t[j]);
        }
        lemma_literal_body_runs(u, i - 1, j - 1);
    } else {
        let u = t.skip(2);
        assert(t[1] == '\'');
        if i == 0 {
            assert(j >= 2) by {
                if j == 1 {
                    assert(t[1] != '\'');
                }
            }
            if j > 2 {
                assert forall|k: int| 0 <= k < j - 2 implies #[trigger] u[k] == '\'' by {
                    assert(u[k] == t[k + 2]);
                }
                if j - 2 < u.len() {
                    assert(u[j - 2] == t[j]);
                }
                lemma_literal_body_runs(u, 0, j - 2);
            }
        } else {
            assert(i >= 2) by {
                if i == 1 {
                    assert(t[0] == '\'');
                }
            }
            assert forall|k: int| i - 2 <= k < j - 2 implies #[trigger] u[k] == '\'' by {
                assert(u[k] == t[k + 2]);
            }
            if i - 2 > 0 {
                assert(u[i - 3] == t[i - 1]);
            }
            if j - 2 < u.len() {
                assert(u[j - 2] == t[j]);
            }
            lemma_literal_body_runs(u, i - 2, j - 2);
        }
    }
}

/// Every maximal run of `'` in escaped text has even length, so each quote
/// of the input stands doubled and none ends the literal.
pub proof fn lemma_escaped_quote_runs_even(s: Seq<char>, i: int, j: int)
    requires
        quote_run(escaped(s), i, j),
    ensures
        (j - i) % 2 == 0,
{
    lemma_escaped_is_literal_body(s);
    lemma_literal_body_runs(escaped(s), i, j);
}

/// Escaping leaves text without `'` and `\` unchanged.
pub proof fn lemma_escape_plain(s: Seq<char>)
    requires
        forall|i: int| 0 <= i < s.len() ==> #[trigger] s[i] != '\'' && s[i] != '\\',
    ensures
        escaped(s) == s,
    decreases s.len(),
{
    if s.len() > 0 {
        assert forall|i: int| 0 <= i < s.skip(1).len() implies #[trigger] s.skip(1)[i] != '\''
            && s.skip(1)[i] != '\\' by {
            assert(s.skip(1)[i] == s[i + 1]);
        }
        lemma_escape_plain(s.skip(1));
        assert(s =~= seq![s[0]] + s.skip(1));
    }
}

/// A name that [`validate_identifier`] accepts holds no quote, backslash,
/// whitespace or semicolon, and [`escape_sql_string`] leaves it unchanged.
pub proof fn lemma_valid_identifier_is_inert(name: Seq<char>)
    requires
        is_valid_identifier(name),
    ensures
        escaped(name) == name,
        forall|i: int|
            0 <= i < name.len() ==> #[trigger] name[i] != '\'' && name[i] != '\\' && name[i] != ' '
                && name[i] != ';' && name[i] != '"',
{
    assert forall|i: int| 0 <= i < name.len() implies #[trigger] name[i] != '\'' && name[i]
        != '\\' && name[i] != ' ' && name[i] != ';' && name[i] != '"' by {
        assert(is_ident_char(name[i]));
    }
    lemma_escape_plain(name);
}

/// A byte allowed in an identifier: an ASCII letter, an ASCII digit or `_`.
pub open spec fn is_ident_byte(b: u8) -> bool {
    (0x61 <= b && b <= 0x7a) || (0x41 <= b && b <= 0x5a) || (0x30 <= b && b <= 0x39) || b == 0x5f
}

/// The identifier rule over the bytes of the name: 1 to 63 bytes, each an
/// ASCII letter, digit or `_`, the first not a digit.
pub open spec fn is_identifier_bytes(b: Seq<u8>) -> bool {
    &&& 1 <= b.len() <= 63
    &&& forall|i: int| 0 <= i < b.len() ==> is_ident_byte(#[trigger] b[i])
    &&& !(0x30 <= b[0] && b[0] <= 0x39)
}

proof fn lemma_leading_byte_high(c: u32)
    ensures
        !(c <= 0x7f) ==> encode_scalar(c).len() > 0 && encode_scalar(c)[0] >= 0x80,
{
    if !(c <= 0x7f) {
        let b2 = leading_byte_width_2(c);
        let b3 = leading_byte_width_3(c);
        let b4 = leading_byte_width_4(c);
        assert(b2 >= 0x80) by (bit_vector)
            requires
                b2 == 0xC0u8 | ((c >> 6u32) & 0x1Fu32) as u8,
        ;
        assert(b3 >= 0x80) by (bit_vector)
            requires
                b3 == 0xE0u8 | ((c >> 12u32) & 0x0Fu32) as u8,
        ;
        assert(b4 >= 0x80) by (bit_vector)
            requires
                b4 == 0xF0u8 | ((c >> 18u32) & 0x7u32) as u8,
        ;
    }
}

proof fn lemma_char_as_u32(c: char)
    ensures
        (c as u32) as int == c as int,
{
}

proof fn lemma_ascii_bytes_ascii_chars(chars: Seq<char>)
    requires
        forall|i: int| 0 <= i < encode_utf8(chars).len() ==> #[trigger] encode_utf8(chars)[i] < 0x80,
    ensures
        is_ascii_chars(chars),
    decreases chars.len(),
{
    if chars.len() > 0 {
        let c0 = chars[0] as u32;
        let first = encode_scalar(c0);
        let rest = encode_utf8(chars.drop_first());
        assert(encode_utf8(chars) == first + rest);
        lemma_leading_byte_high(c0);
        assert(first.len() >= 1);
        assert(encode_utf8(chars)[0] == first[0]);
        assert(encode_utf8(chars)[0] < 0x80);
        assert(c0 <= 0x7f);
        lemma_char_as_u32(chars[0]);
        assert(chars[0] <= '\u{7f}');
        assert forall|i: int| 0 <= i < rest.len() implies #[trigger] rest[i] < 0x80 by {
            assert(encode_utf8(chars)[first.len() + i] == rest[i]);
        }
        lemma_ascii_bytes_ascii_chars(chars.drop_first());
        assert forall|i: int| 0 <= i < chars.len() implies '\0' <= #[trigger] chars[i] <= '\u{7f}' by {
            if i > 0 {
                assert(chars[i] == chars.drop_first()[i - 1]);
            }
        }
    }
}

/// The identifier rule read over bytes: `validate_identifier` accepts a name
/// exactly when its UTF-8 bytes number 1 to 63, each is an ASCII letter,
/// digit or `_`, and the first is not a digit.
pub proof fn lemma_identifier_bytes(name: Seq<char>)
    requires
        encode_utf8(name).len() <= usize::MAX,
    ensures
        is_valid_identifier(name) <==> is_identifier_bytes(encode_utf8(name)),
{
    let b = encode_utf8(name);
    if is_valid_identifier(name) {
        assert(is_ascii_chars(name)) by {
            assert forall|i: int| 0 <= i < name.len() implies '\0' <= #[trigger] name[i] <= '\u{7f}' by {
                assert(is_ident_char(name[i]));
            }
        }
        is_ascii_chars_encode_utf8(name);
        assert forall|i: int| 0 <= i < b.len() implies is_ident_byte(#[trigger] b[i]) by {
            assert(name[i] as u8 == b[i]);
            assert(is_ident_char(name[i]));
            assert((name[i] as int) < 128);
            assert(name[i] as int == b[i] as int);
        }
        assert(name[0] as u8 == b[0]);
        assert(name[0] as int == b[0] as int);
        assert(is_ident_start(name[0]));
        assert(b.len() == name.len());
        assert(byte_len(name) == b.len());
    }
    if is_identifier_bytes(b) {
        assert forall|i: int| 0 <= i < b.len() implies #[trigger] b[i] < 0x80 by {
            assert(is_ident_byte(b[i]));
        }
        lemma_ascii_bytes_ascii_chars(name);
        is_ascii_chars_encode_utf8(name);
        assert forall|i: int| 0 <= i < name.len() implies is_ident_char(#[trigger] name[i]) by {
            assert(name[i] as u8 == b[i]);
            assert(is_ident_byte(b[i]));
            assert((name[i] as int) < 128);
            assert(name[i] as int == b[i] as int);
        }
        assert(name[0] as u8 == b[0]);
        assert(name[0] as int == b[0] as int);
        assert(name.len() == b.len());
        assert(matches_identifier_pattern(name));
        assert(byte_len(name) <= MAX_IDENTIFIER_BYTES);
    }
}

/// Whether a name is accepted does not depend on the `kind` named in the
/// error message.
pub proof fn lemma_identifier_check_ignores_kind(name: Seq<char>, k1: Seq<char>, k2: Seq<char>)
    ensures
        (identifier_check(name, k1) is Ok) <==> (identifier_check(name, k2) is Ok),
        (identifier_check(name, k1) is Ok) <==> is_valid_identifier(name),
{
}

} // verus!
