//! Migration files: the `V<version>__<description>.up.sql` /
//! `.down.sql` naming convention, and the grouping of a directory listing
//! into migrations.

use vstd::prelude::*;

use crate::error::DuckLakeError;
use crate::text::{chars_of, decimal, digit_char, push_char, push_signed_decimal, push_str, signed_decimal};

verus! {

/// An ASCII digit.
pub open spec fn is_digit(c: char) -> bool {
    '0' <= c && c <= '9'
}

/// The number of ASCII digits at the start of `s`.
pub open spec fn leading_digits(s: Seq<char>) -> nat
    decreases s.len(),
{
    if s.len() > 0 && is_digit(s[0]) {
        1 + leading_digits(s.skip(1))
    } else {
        0
    }
}

/// The value of a run of decimal digits.
pub open spec fn digits_value(ds: Seq<char>) -> nat
    decreases ds.len(),
{
    if ds.len() == 0 {
        0
    } else {
        digits_value(ds.drop_last()) * 10 + ((ds.last() as int - '0' as int) as nat)
    }
}

/// `s` ends with `suffix`.
pub open spec fn ends_with(s: Seq<char>, suffix: Seq<char>) -> bool {
    suffix.len() <= s.len() && s.skip(s.len() - suffix.len()) == suffix
}

/// A usable description: not empty, and without `.`.
pub open spec fn valid_description(d: Seq<char>) -> bool {
    d.len() > 0 && forall|i: int| 0 <= i < d.len() ==> #[trigger] d[i] != '.'
}

/// `.down.sql` or `.up.sql`.
pub open spec fn script_suffix(is_down: bool) -> Seq<char> {
    if is_down {
        ".down.sql"@
    } else {
        ".up.sql"@
    }
}

/// The `(version, description, is_down)` a file name stands for, or `None`
/// when it does not follow `V<digits>__<description>.up.sql` /
/// `.down.sql`, the version fitting in `i64` and the description being
/// non-empty and free of `.`.
pub open spec fn migration_file(name: Seq<char>) -> Option<(i64, Seq<char>, bool)> {
    if name.len() == 0 || name[0] != 'V' {
        None
    } else {
        let t = name.skip(1);
        let k = leading_digits(t);
        if k == 0 || t.len() < k + 2 || t[k as int] != '_' || t[(k + 1) as int] != '_' {
            None
        } else if digits_value(t.take(k as int)) > i64::MAX {
            None
        } else {
            let after = t.skip((k + 2) as int);
            let v = digits_value(t.take(k as int)) as i64;
            if ends_with(after, ".down.sql"@) && valid_description(after.take(after.len() - 9)) {
                Some((v, after.take(after.len() - 9), true))
            } else if ends_with(after, ".up.sql"@) && valid_description(after.take(after.len() - 7)) {
                Some((v, after.take(after.len() - 7), false))
            } else {
                None
            }
        }
    }
}

proof fn lemma_leading_digits_of(s: Seq<char>, k: nat)
    requires
        k <= s.len(),
        forall|i: int| 0 <= i < k ==> is_digit(#[trigger] s[i]),
        k < s.len() ==> !is_digit(s[k as int]),
    ensures
        leading_digits(s) == k,
    decreases k,
{
    if k > 0 {
        assert forall|i: int| 0 <= i < k - 1 implies is_digit(#[trigger] s.skip(1)[i]) by {
            assert(s.skip(1)[i] == s[i + 1]);
        }
        if k - 1 < s.skip(1).len() {
            assert(s.skip(1)[k - 1] == s[k as int]);
        }
        lemma_leading_digits_of(s.skip(1), (k - 1) as nat);
    }
}

proof fn lemma_digits_value_monotone(ds: Seq<char>, j: int)
    requires
        0 <= j <= ds.len(),
        forall|i: int| 0 <= i < ds.len() ==> is_digit(#[trigger] ds[i]),
    ensures
        digits_value(ds.take(j)) <= digits_value(ds),
    decreases ds.len() - j,
{
    if j < ds.len() {
        let t = ds.take(j + 1);
        assert(t.drop_last() =~= ds.take(j));
        assert(is_digit(t.last()));
        lemma_digits_value_monotone(ds, j + 1);
    } else {
        assert(ds.take(j) =~= ds);
    }
}

proof fn lemma_decimal_digits(n: nat)
    ensures
        decimal(n).len() >= 1,
        forall|i: int| 0 <= i < decimal(n).len() ==> is_digit(#[trigger] decimal(n)[i]),
        digits_value(decimal(n)) == n,
    decreases n,
{
    if n >= 10 {
        lemma_decimal_digits(n / 10);
        let s = decimal(n);
        assert(s.drop_last() =~= decimal(n / 10));
        assert(forall|i: int| 0 <= i < s.len() - 1 ==> s[i] == decimal(n / 10)[i]);
        assert(s.last() == digit_char(n % 10));
        assert(digit_char(n % 10) as int == '0' as int + n % 10);
        assert(n == (n / 10) * 10 + n % 10);
        assert(digits_value(s) == digits_value(s.drop_last()) * 10 + ((s.last() as int - '0' as int) as nat));
        assert(digits_value(s.drop_last()) == n / 10);
        assert((s.last() as int - '0' as int) as nat == n % 10);
    } else {
        assert(decimal(n) =~= seq![digit_char(n)]);
        assert(decimal(n).drop_last() =~= Seq::<char>::empty());
        assert(digit_char(n) as int == '0' as int + n);
        let s = decimal(n);
        assert(s.last() == digit_char(n));
        assert(digits_value(s) == digits_value(s.drop_last()) * 10 + ((s.last() as int - '0' as int) as nat));
        assert(digits_value(s.drop_last()) == 0);
    }
}

/// A file name written by the convention, `V<version>__<description>`
/// followed by `.up.sql` or `.down.sql`, reads back as the version,
/// description and direction it was written from.
pub proof fn lemma_migration_file_roundtrip(v: i64, desc: Seq<char>, down: bool)
    requires
        v >= 0,
        desc.len() > 0,
        forall|i: int| 0 <= i < desc.len() ==> #[trigger] desc[i] != '.',
    ensures
        migration_file(
            seq!['V'] + decimal(v as nat) + "__"@ + desc + (if down {
                ".down.sql"@
            } else {
                ".up.sql"@
            }),
        ) == Some((v, desc, down)),
{
    reveal_strlit("__");
    reveal_strlit(".down.sql");
    reveal_strlit(".up.sql");
    let ds = decimal(v as nat);
    lemma_decimal_digits(v as nat);
    let suffix = script_suffix(down);
    let name = seq!['V'] + ds + "__"@ + desc + suffix;
    let t = name.skip(1);
    let after = desc + suffix;
    assert(t =~= ds + "__"@ + after);
    let k = ds.len();
    assert forall|i: int| 0 <= i < k implies is_digit(#[trigger] t[i]) by {
        assert(t[i] == ds[i]);
    }
    assert(t[k as int] == '_');
    assert(t[(k + 1) as int] == '_');
    lemma_leading_digits_of(t, k);
    assert(t.take(k as int) =~= ds);
    assert(t.skip((k + 2) as int) =~= after);
    if down {
        assert(after.skip(after.len() - 9) =~= ".down.sql"@);
        assert(after.take(after.len() - 9) =~= desc);
    } else {
        assert(after.skip(after.len() - 7) =~= ".up.sql"@);
        assert(after.take(after.len() - 7) =~= desc);
        if after.len() >= 9 {
            assert(after[after.len() - 7] == '.');
            assert(".down.sql"@[2] == 'o');
            assert(after.skip(after.len() - 9)[2] == after[after.len() - 7]);
        }
    }
}

/// Whatever name is accepted, its version is not negative, its description
/// is not empty and holds no `.`, and the name ends in `.down.sql` exactly
/// when it is a down script, in `.up.sql` otherwise.
pub proof fn lemma_migration_file_accepted(name: Seq<char>)
    ensures
        migration_file(name) matches Some((v, d, down)) ==> {
            &&& v >= 0
            &&& d.len() > 0
            &&& forall|i: int| 0 <= i < d.len() ==> #[trigger] d[i] != '.'
            &&& name.len() > 0 && name[0] == 'V'
            &&& down ==> ends_with(name, ".down.sql"@)
            &&& !down ==> ends_with(name, ".up.sql"@)
        },
{
    reveal_strlit(".down.sql");
    reveal_strlit(".up.sql");
    if migration_file(name) is Some {
        let t = name.skip(1);
        let k = leading_digits(t);
        let after = t.skip((k + 2) as int);
        let val = digits_value(t.take(k as int));
        assert(val <= i64::MAX);
        assert((val as i64) as int == val as int);
        assert(after =~= name.skip((k + 3) as int));
        assert(after.len() + k + 3 == name.len());
        if ends_with(after, ".down.sql"@) && valid_description(after.take(after.len() - 9)) {
            assert(name.skip(name.len() - 9) =~= after.skip(after.len() - 9));
        } else {
            assert(ends_with(after, ".up.sql"@));
            assert(name.skip(name.len() - 7) =~= after.skip(after.len() - 7));
        }
    }
}

/// Parse a migration file name such as `V1__create_users.up.sql` (or
/// `.down.sql`) into `(version, description, is_down)`; `None` when the
/// name does not follow the convention.
pub fn parse_migration_filename(name: &str) -> (r: Option<(i64, String, bool)>)
    ensures
        match migration_file(name@) {
            Some((v, d, down)) => r matches Some((rv, rd, rdown)) && rv == v && rd@ == d && rdown
                == down,
            None => r is None,
        },
{
    let cs = chars_of(name);
    let n = cs.len();
    if n == 0 || cs[0] != 'V' {
        return None;
    }
    let ghost t = cs@.skip(1);
    // the digit run
    let mut i: usize = 1;
    let mut value: u64 = 0;
    let mut overflow = false;
    while i < n && '0' <= cs[i] && cs[i] <= '9'
        invariant
            n == cs@.len(),
            cs@ == name@,
            t == cs@.skip(1),
            1 <= i <= n,
            forall|x: int| 0 <= x < i - 1 ==> is_digit(#[trigger] t[x]),
            !overflow ==> value as nat == digits_value(t.take(i - 1)) && value <= i64::MAX,
            overflow ==> digits_value(t.take(i - 1)) > i64::MAX,
        decreases n - i,
    {
        let d = (cs[i] as u32 - '0' as u32) as u64;
        proof {
            let p = t.take(i as int);
            assert(p.drop_last() =~= t.take(i - 1));
            assert(p.last() == cs@[i as int]);
            assert(forall|x: int| 0 <= x < p.len() ==> is_digit(#[trigger] p[x]));
        }
        if !overflow {
            if value > ((i64::MAX as u64) - d) / 10 {
                overflow = true;
                assert(digits_value(t.take(i as int)) > i64::MAX) by (nonlinear_arith)
                    requires
                        digits_value(t.take(i as int)) == value * 10 + d,
                        value > ((i64::MAX as u64) - d) / 10,
                        d <= 9,
                ;
            } else {
                assert(value * 10 + d <= i64::MAX) by (nonlinear_arith)
                    requires
                        value <= ((i64::MAX as u64) - d) / 10,
                        d <= 9,
                ;
                value = value * 10 + d;
            }
        } else {
            proof {
                let p = t.take(i as int);
                assert(forall|x: int| 0 <= x < p.len() ==> is_digit(#[trigger] p[x]));
                lemma_digits_value_monotone(p, i - 1);
                assert(p.take(i - 1) =~= t.take(i - 1));
            }
        }
        i = i + 1;
    }
    let k = i - 1;
    proof {
        lemma_leading_digits_of(t, k as nat);
    }
    if k == 0 || n - i < 2 || cs[i] != '_' || cs[i + 1] != '_' {
        proof {
            if k > 0 && t.len() >= k + 2 {
                assert(t[k as int] == cs@[i as int]);
                assert(t[k + 1] == cs@[i + 1]);
            }
        }
        return None;
    }
    if overflow {
        return None;
    }
    // the rest: description and suffix
    let start = i + 2;
    let ghost after = t.skip(k + 2);
    assert(after =~= cs@.skip(start as int));
    let rest_len = n - start;
    let mut is_down = false;
    let mut dlen: usize = 0;
    let mut matched = false;
    if rest_len >= 9 && suffix_at(&cs, n - 9, ".down.sql") {
        is_down = true;
        dlen = rest_len - 9;
        matched = true;
    } else if rest_len >= 7 && suffix_at(&cs, n - 7, ".up.sql") {
        dlen = rest_len - 7;
        matched = true;
    }
    proof {
        reveal_strlit(".down.sql");
        reveal_strlit(".up.sql");
        if rest_len >= 9 {
            assert(after.skip(after.len() - 9) =~= cs@.subrange(n - 9, n as int));
        }
        if rest_len >= 7 {
            assert(after.skip(after.len() - 7) =~= cs@.subrange(n - 7, n as int));
        }
    }
    if !matched {
        return None;
    }
    // the description
    let mut desc = String::new();
    let mut j: usize = 0;
    let mut ok = dlen > 0;
    while j < dlen
        invariant
            start + dlen <= n,
            n == cs@.len(),
            after == cs@.skip(start as int),
            desc@ == after.take(j as int),
            j <= dlen,
            ok <==> (dlen > 0 && forall|x: int| 0 <= x < j ==> #[trigger] after[x] != '.'),
        decreases dlen - j,
    {
        let c = cs[start + j];
        assert(after[j as int] == c);
        if c == '.' {
            ok = false;
        }
        push_char(&mut desc, c);
        assert(desc@ =~= after.take(j + 1));
        j = j + 1;
    }
    proof {
        if is_down {
            assert(after.take(after.len() - 9) =~= after.take(dlen as int));
        } else {
            assert(after.take(after.len() - 7) =~= after.take(dlen as int));
            if after.len() >= 9 {
                // a `.down.sql` ending would put a `.` inside the description
                if ends_with(after, ".down.sql"@) {
                    assert(after[after.len() - 9] == '.');
                }
            }
        }
    }
    if !ok {
        proof {
            if dlen > 0 {
                let x = choose|x: int| 0 <= x < dlen && #[trigger] after[x] == '.';
                assert(after.take(dlen as int)[x] == '.');
            }
            if is_down {
                reveal_strlit(".down.sql");
                assert(cs@.skip(n - 9) == ".down.sql"@);
                assert(cs@.skip(n - 9)[0] == '.');
                assert(after[after.len() - 9] == cs@[n - 9]);
                assert(after.take(after.len() - 7)[after.len() - 9] == '.');
            }
        }
        return None;
    }
    Some((value as i64, desc, is_down))
}

/// `cs[at..]` spells `suffix`.
fn suffix_at(cs: &Vec<char>, at: usize, suffix: &str) -> (b: bool)
    requires
        at <= cs@.len(),
    ensures
        b == (cs@.skip(at as int) == suffix@),
{
    let s = chars_of(suffix);
    if cs.len() - at != s.len() {
        proof {
            if cs@.skip(at as int) == suffix@ {
                assert(cs@.skip(at as int).len() == s@.len());
            }
        }
        return false;
    }
    let mut i: usize = 0;
    while i < s.len()
        invariant
            at <= cs@.len(),
            cs.len() - at == s@.len(),
            s@ == suffix@,
            i <= s@.len(),
            forall|x: int| 0 <= x < i ==> cs@[at + x] == s@[x],
        decreases s@.len() - i,
    {
        if cs[at + i] != s[i] {
            proof {
                assert(cs@.skip(at as int)[i as int] != suffix@[i as int]);
            }
            return false;
        }
        i = i + 1;
    }
    assert(cs@.skip(at as int) =~= suffix@);
    true
}

/// What a directory listing holds, name by name: the migration file each
/// name stands for, or `None` for a file that is not a migration.
pub open spec fn listing(names: Seq<String>) -> Seq<Option<(i64, Seq<char>, bool)>> {
    Seq::new(names.len(), |i: int| migration_file(names[i]@))
}

/// Two migration files of the same version and the same direction.
pub open spec fn same_slot(e: Option<(i64, Seq<char>, bool)>, f: Option<(i64, Seq<char>, bool)>) -> bool {
    e matches Some((v, _, a)) && f matches Some((w, _, b)) && v == w && a == b
}

/// An earlier file of the listing already fills the slot of file `j`.
pub open spec fn repeats_slot(es: Seq<Option<(i64, Seq<char>, bool)>>, j: int) -> bool {
    exists|i: int| 0 <= i < j && #[trigger] same_slot(es[i], es[j])
}

/// `e` is the `.up.sql` file of version `v`.
pub open spec fn is_up_of(e: Option<(i64, Seq<char>, bool)>, v: i64) -> bool {
    e matches Some((w, _, down)) && w == v && !down
}

/// `e` is the `.down.sql` file of version `v`.
pub open spec fn is_down_of(e: Option<(i64, Seq<char>, bool)>, v: i64) -> bool {
    e matches Some((w, _, down)) && w == v && down
}

/// The listing holds the `.up.sql` file of version `v`.
pub open spec fn has_up(es: Seq<Option<(i64, Seq<char>, bool)>>, v: i64) -> bool {
    exists|i: int| 0 <= i < es.len() && #[trigger] is_up_of(es[i], v)
}

/// File `j` makes the listing unusable: it repeats the slot of an earlier
/// file, or it is a `.down.sql` file whose version has no `.up.sql` file.
pub open spec fn listing_problem(es: Seq<Option<(i64, Seq<char>, bool)>>, j: int) -> bool {
    match es[j] {
        Some((v, _, down)) => repeats_slot(es, j) || (down && !has_up(es, v)),
        None => false,
    }
}

/// Message for a version with two files of the same direction.
pub open spec fn repeated_file_message(v: i64, down: bool) -> Seq<char> {
    "migration V"@ + signed_decimal(v as int) + ": more than one "@ + script_suffix(down)
        + " file found"@
}

/// Message for a version with a `.down.sql` file and no `.up.sql` file.
pub open spec fn missing_up_message(v: i64, description: Seq<char>) -> Seq<char> {
    "migration V"@ + signed_decimal(v as int) + " ('"@ + description + "'): no .up.sql file found"@
}

/// The message for the problem that file `j` makes.
pub open spec fn problem_message(es: Seq<Option<(i64, Seq<char>, bool)>>, j: int) -> Seq<char> {
    match es[j] {
        Some((v, d, down)) => if repeats_slot(es, j) {
            repeated_file_message(v, down)
        } else {
            missing_up_message(v, d)
        },
        None => Seq::empty(),
    }
}

/// The `.down.sql` file of version `v` in the listing, if there is one.
pub open spec fn down_file_of(names: Seq<String>, v: i64) -> Option<Seq<char>> {
    let es = listing(names);
    if exists|i: int| 0 <= i < es.len() && #[trigger] is_down_of(es[i], v) {
        Some(names[choose|i: int| 0 <= i < es.len() && #[trigger] is_down_of(es[i], v)]@)
    } else {
        None
    }
}

/// The migrations that the first `k` names contribute, one per `.up.sql`
/// file in listing order: `(version, description, up file, down file)`.
pub open spec fn planned(names: Seq<String>, k: int) -> Seq<(i64, Seq<char>, Seq<char>, Option<Seq<char>>)>
    decreases k,
{
    if k <= 0 {
        Seq::empty()
    } else {
        let rest = planned(names, k - 1);
        match listing(names)[k - 1] {
            Some((v, d, down)) => if down {
                rest
            } else {
                rest.push((v, d, names[k - 1]@, down_file_of(names, v)))
            },
            None => rest,
        }
    }
}

/// Every planned migration names an `.up.sql` file of the listing that
/// parses to its version and description, and, when it has one, a
/// `.down.sql` file that parses to the same version.
pub proof fn lemma_planned_files(names: Seq<String>, k: int)
    requires
        0 <= k <= names.len(),
    ensures
        forall|j: int| #![trigger planned(names, k)[j]]
            0 <= j < planned(names, k).len() ==> {
                let p = planned(names, k)[j];
                &&& migration_file(p.2) == Some((p.0, p.1, false))
                &&& (p.3 matches Some(f) ==> (migration_file(f) matches Some((w, _, down)) && w == p.0
                    && down))
            },
    decreases k,
{
    if k > 0 {
        lemma_planned_files(names, k - 1);
        let es = listing(names);
        let rest = planned(names, k - 1);
        match es[k - 1] {
            Some((v, d, down)) => {
                if !down {
                    let item = (v, d, names[k - 1]@, down_file_of(names, v));
                    assert(planned(names, k) == rest.push(item));
                    if exists|i: int| 0 <= i < es.len() && #[trigger] is_down_of(es[i], v) {
                        let c = choose|i: int| 0 <= i < es.len() && #[trigger] is_down_of(es[i], v);
                        assert(es[c] == migration_file(names[c]@));
                    }
                    assert forall|j: int| #![trigger planned(names, k)[j]]
                        0 <= j < planned(names, k).len() implies {
                            let p = planned(names, k)[j];
                            &&& migration_file(p.2) == Some((p.0, p.1, false))
                            &&& (p.3 matches Some(f) ==> (migration_file(f) matches Some((w, _, dn))
                                && w == p.0 && dn))
                        } by {
                        if j < rest.len() {
                            assert(planned(names, k)[j] == rest[j]);
                        }
                    }
                } else {
                    assert(planned(names, k) == rest);
                }
            },
            None => {
                assert(planned(names, k) == rest);
            },
        }
    }
}

/// A migration found in a directory: its version and description, the
/// file holding its `up` script and, when there is one, the file holding its
/// `down` script.
#[derive(Debug, Clone)]
pub struct DirectoryMigration {
    pub version: i64,
    pub description: String,
    pub up_file: String,
    pub down_file: Option<String>,
}

impl View for DirectoryMigration {
    type V = (i64, Seq<char>, Seq<char>, Option<Seq<char>>);

    open spec fn view(&self) -> (i64, Seq<char>, Seq<char>, Option<Seq<char>>) {
        (self.version, self.description@, self.up_file@, match self.down_file {
            Some(f) => Some(f@),
            None => None,
        })
    }
}

/// The parsed form of a name, with the description as characters.
pub open spec fn entry_view(e: Option<(i64, String, bool)>) -> Option<(i64, Seq<char>, bool)> {
    match e {
        Some((v, d, down)) => Some((v, d@, down)),
        None => None,
    }
}

proof fn lemma_down_file(names: Seq<String>, v: i64, f: Option<String>)
    requires
        forall|k: int| 0 <= k < names.len() ==> !listing_problem(listing(names), k),
        f is None ==> forall|k: int| 0 <= k < names.len() ==> !#[trigger] is_down_of(listing(names)[k], v),
        f matches Some(s) ==> exists|k: int|
            0 <= k < names.len() && #[trigger] is_down_of(listing(names)[k], v) && s@ == names[k]@,
    ensures
        (match f {
            Some(s) => Some(s@),
            None => None,
        }) == down_file_of(names, v),
{
    let es = listing(names);
    if let Some(s) = f {
        let k = choose|k: int| 0 <= k < names.len() && #[trigger] is_down_of(es[k], v) && s@ == names[k]@;
        assert(is_down_of(es[k], v));
        let c = choose|i: int| 0 <= i < es.len() && #[trigger] is_down_of(es[i], v);
        if c != k {
            let a = if c < k { c } else { k };
            let b = if c < k { k } else { c };
            assert(same_slot(es[a], es[b]));
            assert(repeats_slot(es, b));
            assert(listing_problem(es, b));
        }
    }
}

/// Groups the file names of a migration directory into migrations.
///
/// Names that are not migration files are ignored. The listing is refused,
/// at its first offending name, when a version has two `.up.sql` or two
/// `.down.sql` files, or a `.down.sql` file without an `.up.sql` file.
/// Otherwise each `.up.sql` file gives one migration, in listing order,
/// described as its `.up.sql` file names it and paired with the
/// `.down.sql` file of its version, if any.
pub fn plan_directory(names: &Vec<String>) -> (r: Result<Vec<DirectoryMigration>, DuckLakeError>)
    ensures
        r is Ok <==> forall|j: int| 0 <= j < names@.len() ==> !listing_problem(listing(names@), j),
        r matches Err(e) ==> exists|j: int|
            0 <= j < names@.len() && listing_problem(listing(names@), j) && (forall|k: int|
                0 <= k < j ==> !listing_problem(listing(names@), k)) && (e matches DuckLakeError::Query(
                m,
            ) && m@ == problem_message(listing(names@), j)),
        r matches Ok(ms) ==> ms@.map_values(|m: DirectoryMigration| m@) == planned(
            names@,
            names@.len() as int,
        ),
{
    let ghost es_spec = listing(names@);
    let n = names.len();
    let mut es: Vec<Option<(i64, String, bool)>> = Vec::new();
    for j in 0..n
        invariant
            n == names@.len(),
            es_spec == listing(names@),
            es@.len() == j,
            forall|k: int| 0 <= k < j ==> entry_view(#[trigger] es@[k]) == es_spec[k],
    {
        let e = parse_migration_filename(names[j].as_str());
        assert(entry_view(e) == es_spec[j as int]);
        es.push(e);
    }
    // refuse the listing at its first problem
    let mut j: usize = 0;
    while j < n
        invariant
            n == names@.len() == es@.len(),
            es_spec == listing(names@),
            forall|k: int| 0 <= k < n ==> entry_view(#[trigger] es@[k]) == es_spec[k],
            j <= n,
            forall|k: int| 0 <= k < j ==> !listing_problem(es_spec, k),
        decreases n - j,
    {
        if let Some((v, d, down)) = &es[j] {
            assert(es_spec[j as int] == Some((*v, d@, *down)));
            let mut i: usize = 0;
            while i < j
                invariant
                    n == names@.len() == es@.len(),
                    forall|k: int| 0 <= k < n ==> entry_view(#[trigger] es@[k]) == es_spec[k],
                    es_spec == listing(names@),
                    i <= j < n,
                    forall|k: int| 0 <= k < j ==> !listing_problem(es_spec, k),
                    es_spec[j as int] == Some((*v, d@, *down)),
                    forall|k: int| 0 <= k < i ==> !same_slot(#[trigger] es_spec[k], es_spec[j as int]),
                decreases j - i,
            {
                if let Some((w, _, b)) = &es[i] {
                    if *w == *v && *b == *down {
                        assert(entry_view(es@[i as int]) == es_spec[i as int]);
                        assert(same_slot(es_spec[i as int], es_spec[j as int]));
                        assert(listing_problem(es_spec, j as int));
                        let mut m = String::new();
                        push_str(&mut m, "migration V");
                        push_signed_decimal(&mut m, *v);
                        push_str(&mut m, ": more than one ");
                        if *down {
                            push_str(&mut m, ".down.sql");
                        } else {
                            push_str(&mut m, ".up.sql");
                        }
                        push_str(&mut m, " file found");
                        assert(m@ =~= problem_message(es_spec, j as int));
                        return Err(DuckLakeError::Query(m));
                    }
                }
                assert(entry_view(es@[i as int]) == es_spec[i as int]);
                i = i + 1;
            }
            assert(!repeats_slot(es_spec, j as int));
            if *down {
                let mut found = false;
                let mut i: usize = 0;
                while i < n
                    invariant
                        n == names@.len() == es@.len(),
                        forall|k: int| 0 <= k < n ==> entry_view(#[trigger] es@[k]) == es_spec[k],
                        es_spec == listing(names@),
                        i <= n,
                        found <==> exists|k: int| 0 <= k < i && #[trigger] is_up_of(es_spec[k], *v),
                    decreases n - i,
                {
                    assert(entry_view(es@[i as int]) == es_spec[i as int]);
                    if let Some((w, _, b)) = &es[i] {
                        if *w == *v && !*b {
                            found = true;
                            assert(is_up_of(es_spec[i as int], *v));
                        }
                    }
                    assert(is_up_of(es_spec[i as int], *v) ==> found);
                    i = i + 1;
                }
                if !found {
                    assert(listing_problem(es_spec, j as int));
                    let mut m = String::new();
                    push_str(&mut m, "migration V");
                    push_signed_decimal(&mut m, *v);
                    push_str(&mut m, " ('");
                    push_str(&mut m, d.as_str());
                    push_str(&mut m, "'): no .up.sql file found");
                    assert(m@ =~= problem_message(es_spec, j as int));
                    return Err(DuckLakeError::Query(m));
                }
            }
        }
        assert(!listing_problem(es_spec, j as int));
        j = j + 1;
    }
    // one migration per `.up.sql` file
    let mut out: Vec<DirectoryMigration> = Vec::new();
    let mut j: usize = 0;
    while j < n
        invariant
            n == names@.len() == es@.len(),
            es_spec == listing(names@),
            forall|k: int| 0 <= k < n ==> entry_view(#[trigger] es@[k]) == es_spec[k],
            forall|k: int| 0 <= k < n ==> !listing_problem(es_spec, k),
            j <= n,
            out@.map_values(|m: DirectoryMigration| m@) == planned(names@, j as int),
        decreases n - j,
    {
        assert(entry_view(es@[j as int]) == es_spec[j as int]);
        if let Some((v, d, down)) = &es[j] {
            if !*down {
                let mut down_file: Option<String> = None;
                let mut i: usize = 0;
                while i < n
                    invariant
                        n == names@.len() == es@.len(),
                        forall|k: int| 0 <= k < n ==> entry_view(#[trigger] es@[k]) == es_spec[k],
                        es_spec == listing(names@),
                        i <= n,
                        down_file is None ==> forall|k: int| 0 <= k < i ==> !#[trigger] is_down_of(es_spec[k], *v),
                        down_file matches Some(f) ==> exists|k: int| 0 <= k < i && #[trigger] is_down_of(es_spec[k], *v) && f@ == names@[k]@,
                    decreases n - i,
                {
                    assert(entry_view(es@[i as int]) == es_spec[i as int]);
                    if down_file.is_none() {
                        if let Some((w, _, b)) = &es[i] {
                            if *w == *v && *b {
                                down_file = Some(names[i].clone());
                                assert(is_down_of(es_spec[i as int], *v));
                            }
                        }
                    }
                    assert(is_down_of(es_spec[i as int], *v) ==> down_file is Some);
                    i = i + 1;
                }
                proof {
                    lemma_down_file(names@, *v, down_file);
                }
                let m = DirectoryMigration {
                    version: *v,
                    description: d.clone(),
                    up_file: names[j].clone(),
                    down_file,
                };
                out.push(m);
            }
        }
        assert(out@.map_values(|m: DirectoryMigration| m@) =~= planned(names@, j + 1));
        j = j + 1;
    }
    Ok(out)
}

} // verus!
