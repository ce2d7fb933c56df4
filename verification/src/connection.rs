//! The statements that prepare a fresh connection: loading the DuckLake
//! extension and attaching a catalog under a validated alias.

use vstd::prelude::*;

use crate::config::DuckLakeAttachConfig;
use crate::error::DuckLakeError;
use crate::ident::{escape_sql_string, escaped, identifier_check, validate_identifier};
use crate::text::push_str;

verus! {

/// `INSTALL ducklake; LOAD ducklake;`
pub open spec fn install_text() -> Seq<char> {
    "INSTALL ducklake; LOAD ducklake;"@
}

/// The statements that install and load the DuckLake extension.
pub fn install_statement() -> (s: String)
    ensures
        s@ == install_text(),
{
    let mut s = String::new();
    push_str(&mut s, "INSTALL ducklake; LOAD ducklake;");
    assert(s@ =~= install_text());
    s
}

/// `ATTACH '<path>' AS <name> (TYPE DUCKLAKE)`, the path escaped.
pub open spec fn attach_text(path: Seq<char>, name: Seq<char>) -> Seq<char> {
    "ATTACH '"@ + escaped(path) + "' AS "@ + name + " (TYPE DUCKLAKE)"@
}

/// The statement attaching the DuckLake catalog at `catalog_path` under the
/// alias `catalog_name`.
///
/// The alias cannot be a bind parameter, so it must be a valid SQL
/// identifier (the error names it `catalog_name`); the path is escaped as the
/// body of a string literal.
pub fn attach_statement(catalog_path: &str, catalog_name: &str) -> (r: Result<String, DuckLakeError>)
    ensures
        match identifier_check(catalog_name@, "catalog_name"@) {
            Ok(()) => r matches Ok(s) && s@ == attach_text(catalog_path@, catalog_name@),
            Err(msg) => r matches Err(DuckLakeError::Config(m)) && m@ == msg,
        },
{
    match validate_identifier(catalog_name, "catalog_name") {
        Ok(()) => {},
        Err(e) => {
            return Err(e);
        },
    }
    let mut s = String::new();
    push_str(&mut s, "ATTACH '");
    let e = escape_sql_string(catalog_path);
    push_str(&mut s, e.as_str());
    push_str(&mut s, "' AS ");
    push_str(&mut s, catalog_name);
    push_str(&mut s, " (TYPE DUCKLAKE)");
    assert(s@ =~= attach_text(catalog_path@, catalog_name@));
    Ok(s)
}

/// The statements a fresh pooled connection runs before use: none, or, when
/// the catalog is attached automatically, the install statement followed by
/// the attach statement.
pub fn connection_setup(ducklake: &Option<DuckLakeAttachConfig>) -> (r: Result<Vec<String>, DuckLakeError>)
    ensures
        match *ducklake {
            Some(dl) => if dl.auto_attach {
                match identifier_check(dl.catalog_name@, "catalog_name"@) {
                    Ok(()) => r matches Ok(v) && v@.len() == 2 && v@[0]@ == install_text() && v@[1]@
                        == attach_text(dl.catalog_path@, dl.catalog_name@),
                    Err(msg) => r matches Err(DuckLakeError::Config(m)) && m@ == msg,
                }
            } else {
                r matches Ok(v) && v@.len() == 0
            },
            None => r matches Ok(v) && v@.len() == 0,
        },
{
    let mut v: Vec<String> = Vec::new();
    match ducklake {
        Some(dl) => {
            if dl.auto_attach {
                let a = attach_statement(dl.catalog_path.as_str(), dl.catalog_name.as_str());
                match a {
                    Ok(s) => {
                        v.push(install_statement());
                        v.push(s);
                    },
                    Err(e) => {
                        return Err(e);
                    },
                }
            }
        },
        None => {},
    }
    Ok(v)
}

/// The catalog that qualifies table references on a pooled connection: the
/// configured alias whenever a DuckLake section is present.
pub fn catalog_of(ducklake: &Option<DuckLakeAttachConfig>) -> (r: Option<String>)
    ensures
        match *ducklake {
            Some(dl) => r matches Some(c) && c@ == dl.catalog_name@,
            None => r is None,
        },
{
    match ducklake {
        Some(dl) => Some(dl.catalog_name.clone()),
        None => None,
    }
}

} // verus!
