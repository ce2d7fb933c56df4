//! The decisions of the migration runner: duplicate detection, the order in
//! which migrations apply, which are pending, which a rollback reverses, and
//! the status report. Executing the scripts is left to the caller.

use vstd::prelude::*;

use crate::error::DuckLakeError;
use crate::migration::migration::MigrationStatus;
use crate::text::{push_signed_decimal, push_str, signed_decimal};

verus! {

/// Some migration before position `j` has the version of migration `j`.
pub open spec fn repeats_earlier(vs: Seq<i64>, j: int) -> bool {
    exists|i: int| 0 <= i < j && vs[i] == vs[j]
}

/// The first position whose version was already registered, if any.
pub open spec fn first_repeat(vs: Seq<i64>) -> Option<int>
    decreases vs.len(),
{
    if vs.len() == 0 {
        None
    } else {
        match first_repeat(vs.drop_last()) {
            Some(j) => Some(j),
            None => if repeats_earlier(vs, vs.len() - 1) {
                Some(vs.len() - 1)
            } else {
                None
            },
        }
    }
}

/// No two migrations share a version.
pub open spec fn versions_unique(vs: Seq<i64>) -> bool {
    forall|i: int, j: int| 0 <= i < j < vs.len() ==> vs[i] != vs[j]
}

/// Message for a version registered twice.
pub open spec fn duplicate_message(v: i64) -> Seq<char> {
    "duplicate migration version "@ + signed_decimal(v as int) + " registered"@
}

proof fn lemma_first_repeat_prefix(vs: Seq<i64>, m: int, j: int)
    requires
        0 <= m <= vs.len(),
        first_repeat(vs.take(m)) == Some(j),
    ensures
        first_repeat(vs) == Some(j),
    decreases vs.len() - m,
{
    if m < vs.len() {
        assert(vs.take(m + 1).drop_last() =~= vs.take(m));
        lemma_first_repeat_prefix(vs, m + 1, j);
    } else {
        assert(vs.take(m) =~= vs);
    }
}

proof fn lemma_first_repeat_none(vs: Seq<i64>)
    ensures
        first_repeat(vs) is None <==> versions_unique(vs),
    decreases vs.len(),
{
    if vs.len() > 0 {
        let init = vs.drop_last();
        lemma_first_repeat_none(init);
        if versions_unique(vs) {
            assert(versions_unique(init)) by {
                assert forall|i: int, j: int| 0 <= i < j < init.len() implies init[i] != init[j] by {
                    assert(vs[i] != vs[j]);
                }
            }
            assert(!repeats_earlier(vs, vs.len() - 1));
        }
        if first_repeat(vs) is None {
            assert(versions_unique(vs)) by {
                assert forall|i: int, j: int| 0 <= i < j < vs.len() implies vs[i] != vs[j] by {
                    if j < vs.len() - 1 {
                        assert(init[i] == vs[i] && init[j] == vs[j]);
                    } else {
                        if vs[i] == vs[j] {
                            assert(repeats_earlier(vs, vs.len() - 1));
                        }
                    }
                }
            }
        }
    }
}

/// Refuses a set of migrations in which two share a version; the error names
/// the first version found registered a second time.
pub fn validate_unique_versions(versions: &Vec<i64>) -> (r: Result<(), DuckLakeError>)
    ensures
        match first_repeat(versions@) {
            None => r is Ok,
            Some(j) => r matches Err(DuckLakeError::Query(m)) && m@ == duplicate_message(
                versions@[j],
            ),
        },
        r is Ok <==> versions_unique(versions@),
{
    proof {
        lemma_first_repeat_none(versions@);
    }
    let n = versions.len();
    let mut j: usize = 0;
    while j < n
        invariant
            n == versions@.len(),
            j <= n,
            first_repeat(versions@.take(j as int)) is None,
        decreases n - j,
    {
        let mut i: usize = 0;
        while i < j
            invariant
                n == versions@.len(),
                i <= j < n,
                first_repeat(versions@.take(j as int)) is None,
                forall|k: int| 0 <= k < i ==> versions@[k] != versions@[j as int],
            decreases j - i,
        {
            if versions[i] == versions[j] {
                proof {
                    let t = versions@.take(j + 1);
                    assert(t.drop_last() =~= versions@.take(j as int));
                    assert(t[i as int] == t[j as int]);
                    assert(repeats_earlier(t, j as int));
                    assert(first_repeat(t.drop_last()) is None);
                    assert(t.len() - 1 == j as int);
                    assert(first_repeat(t) == Some(j as int));
                    lemma_first_repeat_prefix(versions@, j + 1, j as int);
                }
                let mut m = String::new();
                push_str(&mut m, "duplicate migration version ");
                push_signed_decimal(&mut m, versions[j]);
                push_str(&mut m, " registered");
                assert(m@ =~= duplicate_message(versions@[j as int]));
                return Err(DuckLakeError::Query(m));
            }
            i = i + 1;
        }
        proof {
            let t = versions@.take(j + 1);
            assert(t.drop_last() =~= versions@.take(j as int));
            assert(!repeats_earlier(t, j as int));
        }
        j = j + 1;
    }
    assert(versions@.take(n as int) =~= versions@);
    Ok(())
}

/// Migration `a` comes before migration `b`: a smaller version, or the same
/// version and registered earlier.
pub open spec fn version_before(vs: Seq<i64>, a: int, b: int) -> bool {
    vs[a] < vs[b] || (vs[a] == vs[b] && a < b)
}

/// `order` lists every migration index exactly once, by ascending version,
/// migrations of equal version in registration order.
pub open spec fn is_version_order(vs: Seq<i64>, order: Seq<usize>) -> bool {
    &&& order.len() == vs.len()
    &&& forall|k: int| 0 <= k < order.len() ==> (#[trigger] order[k] as int) < vs.len()
    &&& forall|a: int, b: int|
        0 <= a < b < order.len() ==> version_before(vs, #[trigger] order[a] as int, #[trigger] order[b] as int)
    &&& forall|i: int| 0 <= i < vs.len() ==> #[trigger] order.contains(i as usize)
}

/// The order in which migrations of versions `vs` are listed and applied.
pub open spec fn version_order(vs: Seq<i64>) -> Seq<usize> {
    choose|order: Seq<usize>| is_version_order(vs, order)
}

proof fn lemma_orders_agree_upto(vs: Seq<i64>, o1: Seq<usize>, o2: Seq<usize>, k: int)
    requires
        is_version_order(vs, o1),
        is_version_order(vs, o2),
        0 <= k < vs.len(),
    ensures
        forall|y: int| 0 <= y <= k ==> o1[y] == o2[y],
    decreases k,
{
    if k > 0 {
        lemma_orders_agree_upto(vs, o1, o2, k - 1);
    }
    let a = o1[k];
    let b = o2[k];
    if a != b {
        assert((a as int) < vs.len());
        assert(o2.contains((a as int) as usize));
        let y = choose|y: int| 0 <= y < o2.len() && o2[y] == a;
        assert((b as int) < vs.len());
        assert(o1.contains((b as int) as usize));
        let x = choose|x: int| 0 <= x < o1.len() && o1[x] == b;
        if y < k {
            assert(o1[y] == o2[y]);
            assert(version_before(vs, o1[y] as int, o1[k] as int));
        } else {
            assert(version_before(vs, o2[k] as int, o2[y] as int));
            if x < k {
                assert(o1[x] == o2[x]);
                assert(version_before(vs, o2[x] as int, o2[k] as int));
            } else {
                assert(version_before(vs, o1[k] as int, o1[x] as int));
            }
        }
    }
}

/// There is only one way to order the migrations by version and
/// registration.
pub proof fn lemma_version_order_unique(vs: Seq<i64>, o1: Seq<usize>, o2: Seq<usize>)
    requires
        is_version_order(vs, o1),
        is_version_order(vs, o2),
    ensures
        o1 == o2,
{
    if vs.len() > 0 {
        lemma_orders_agree_upto(vs, o1, o2, vs.len() - 1);
    }
    assert(o1 =~= o2);
}

/// Partial version order over the first `k` migrations.
pub open spec fn is_prefix_order(vs: Seq<i64>, order: Seq<usize>, k: int) -> bool {
    &&& order.len() == k
    &&& forall|x: int| 0 <= x < order.len() ==> (#[trigger] order[x] as int) < k
    &&& forall|a: int, b: int|
        0 <= a < b < order.len() ==> version_before(vs, #[trigger] order[a] as int, #[trigger] order[b] as int)
    &&& forall|i: int| 0 <= i < k ==> #[trigger] order.contains(i as usize)
}

proof fn lemma_insert_in_order(vs: Seq<i64>, old_order: Seq<usize>, p: int, k: usize)
    requires
        (k as int) < vs.len(),
        is_prefix_order(vs, old_order, k as int),
        0 <= p <= old_order.len(),
        forall|q: int| 0 <= q < p ==> vs[#[trigger] old_order[q] as int] <= vs[k as int],
        forall|q: int| p <= q < old_order.len() ==> vs[#[trigger] old_order[q] as int] > vs[k as int],
    ensures
        is_prefix_order(vs, old_order.insert(p, k), k + 1),
{
    old_order.insert_ensures(p, k);
    let no = old_order.insert(p, k);
    let vk = vs[k as int];
    assert forall|x: int| 0 <= x < no.len() implies (#[trigger] no[x] as int) < k + 1 by {
        if x < p {
            assert(no[x] == old_order[x]);
        } else if x > p {
            assert(no[x] == old_order[x - 1]);
        }
    }
    assert forall|a: int, b: int| 0 <= a < b < no.len() implies version_before(vs, #[trigger] no[a] as int, #[trigger] no[b] as int) by {
        if b < p {
            assert(no[a] == old_order[a] && no[b] == old_order[b]);
        } else if b == p {
            assert(no[a] == old_order[a]);
            assert(vs[old_order[a] as int] <= vk);
            assert((old_order[a] as int) < k);
        } else if a < p {
            assert(no[a] == old_order[a] && no[b] == old_order[b - 1]);
            assert(version_before(vs, old_order[a] as int, old_order[b - 1] as int));
        } else if a == p {
            assert(no[b] == old_order[b - 1]);
            assert(vs[old_order[b - 1] as int] > vk);
        } else {
            assert(no[a] == old_order[a - 1] && no[b] == old_order[b - 1]);
            assert(version_before(vs, old_order[a - 1] as int, old_order[b - 1] as int));
        }
    }
    assert forall|i: int| 0 <= i < k + 1 implies #[trigger] no.contains(i as usize) by {
        if i == k {
            assert(no[p] == k);
        } else {
            assert(old_order.contains(i as usize));
            let x = choose|x: int| 0 <= x < old_order.len() && old_order[x] == i as usize;
            if x < p {
                assert(no[x] == i as usize);
            } else {
                assert(no[x + 1] == i as usize);
            }
        }
    }
}

/// The indices of the migrations of versions `versions`, by ascending
/// version and, among equal versions, in registration order.
pub fn stable_version_order(versions: &Vec<i64>) -> (order: Vec<usize>)
    ensures
        is_version_order(versions@, order@),
        order@ == version_order(versions@),
{
    let n = versions.len();
    let ghost vs = versions@;
    let mut order: Vec<usize> = Vec::new();
    let mut k: usize = 0;
    while k < n
        invariant
            n == vs.len(),
            vs == versions@,
            k <= n,
            is_prefix_order(vs, order@, k as int),
        decreases n - k,
    {
        let vk = versions[k];
        let mut p: usize = 0;
        while p < order.len() && versions[order[p]] <= vk
            invariant
                n == vs.len(),
                vs == versions@,
                k < n,
                p <= order@.len(),
                is_prefix_order(vs, order@, k as int),
                forall|q: int| 0 <= q < p ==> vs[#[trigger] order@[q] as int] <= vk,
            decreases order@.len() - p,
        {
            p = p + 1;
        }
        let ghost old_order = order@;
        proof {
            assert forall|q: int| p <= q < old_order.len() implies vs[#[trigger] old_order[q] as int] > vk by {
                if q > p {
                    assert(version_before(vs, old_order[p as int] as int, old_order[q] as int));
                }
            }
        }
        order.insert(p, k);
        proof {
            lemma_insert_in_order(vs, old_order, p as int, k);
        }
        k = k + 1;
    }
    proof {
        assert(is_version_order(vs, order@));
        lemma_version_order_unique(vs, order@, version_order(vs));
    }
    order
}

/// The members of `order` whose version is not in `applied`, in order.
pub open spec fn unapplied(order: Seq<usize>, vs: Seq<i64>, applied: Seq<i64>) -> Seq<usize>
    decreases order.len(),
{
    if order.len() == 0 {
        Seq::empty()
    } else {
        let rest = unapplied(order.drop_last(), vs, applied);
        if applied.contains(vs[order.last() as int]) {
            rest
        } else {
            rest.push(order.last())
        }
    }
}

/// The migrations `run` applies: those whose version is not recorded as
/// applied, in version order.
pub open spec fn pending_of(vs: Seq<i64>, applied: Seq<i64>) -> Seq<usize> {
    unapplied(version_order(vs), vs, applied)
}

/// Whether `v` is among `vs`.
fn contains_version(vs: &Vec<i64>, v: i64) -> (b: bool)
    ensures
        b == vs@.contains(v),
{
    let mut i: usize = 0;
    while i < vs.len()
        invariant
            i <= vs.len(),
            forall|k: int| 0 <= k < i ==> vs@[k] != v,
        decreases vs.len() - i,
    {
        if vs[i] == v {
            assert(vs@[i as int] == v);
            return true;
        }
        i = i + 1;
    }
    false
}

/// The plan of `run`: the indices of the pending migrations, in the order
/// they are applied. Refused when two migrations share a version.
pub fn pending_plan(versions: &Vec<i64>, applied: &Vec<i64>) -> (r: Result<Vec<usize>, DuckLakeError>)
    ensures
        match first_repeat(versions@) {
            None => r matches Ok(p) && p@ == pending_of(versions@, applied@),
            Some(j) => r matches Err(DuckLakeError::Query(m)) && m@ == duplicate_message(
                versions@[j],
            ),
        },
{
    match validate_unique_versions(versions) {
        Ok(()) => {},
        Err(e) => {
            return Err(e);
        },
    }
    let order = stable_version_order(versions);
    let mut plan: Vec<usize> = Vec::new();
    let mut k: usize = 0;
    while k < order.len()
        invariant
            k <= order@.len(),
            is_version_order(versions@, order@),
            plan@ == unapplied(order@.take(k as int), versions@, applied@),
        decreases order@.len() - k,
    {
        let i = order[k];
        proof {
            let t = order@.take(k + 1);
            assert(t.drop_last() =~= order@.take(k as int));
            assert(t.last() == i);
        }
        if !contains_version(applied, versions[i]) {
            plan.push(i);
        }
        k = k + 1;
    }
    assert(order@.take(order@.len() as int) =~= order@);
    Ok(plan)
}

proof fn lemma_unapplied_members(order: Seq<usize>, vs: Seq<i64>, applied: Seq<i64>)
    ensures
        forall|x: usize| #[trigger]
            unapplied(order, vs, applied).contains(x) ==> order.contains(x) && !applied.contains(
                vs[x as int],
            ),
        forall|x: usize|
            order.contains(x) && !applied.contains(vs[x as int]) ==> #[trigger] unapplied(
                order,
                vs,
                applied,
            ).contains(x),
    decreases order.len(),
{
    if order.len() > 0 {
        let init = order.drop_last();
        lemma_unapplied_members(init, vs, applied);
        let rest = unapplied(init, vs, applied);
        let res = unapplied(order, vs, applied);
        assert forall|x: usize| #[trigger] res.contains(x) implies order.contains(x) && !applied.contains(vs[x as int]) by {
            if rest.contains(x) {
                let y = choose|y: int| 0 <= y < init.len() && init[y] == x;
                assert(order[y] == x);
            } else {
                let y = choose|y: int| 0 <= y < res.len() && res[y] == x;
                if y < rest.len() {
                    assert(rest[y] == x);
                }
                assert(order[order.len() - 1] == x);
            }
        }
        assert forall|x: usize| order.contains(x) && !applied.contains(vs[x as int]) implies #[trigger] res.contains(x) by {
            let y = choose|y: int| 0 <= y < order.len() && order[y] == x;
            if y < order.len() - 1 {
                assert(init[y] == x);
                assert(rest.contains(x));
                let z = choose|z: int| 0 <= z < rest.len() && rest[z] == x;
                assert(res[z] == x);
            } else {
                assert(res[res.len() - 1] == x);
            }
        }
    }
}

proof fn lemma_unapplied_sorted(order: Seq<usize>, vs: Seq<i64>, applied: Seq<i64>)
    requires
        forall|a: int, b: int|
            0 <= a < b < order.len() ==> version_before(vs, #[trigger] order[a] as int, #[trigger] order[b] as int),
    ensures
        forall|a: int, b: int|
            0 <= a < b < unapplied(order, vs, applied).len() ==> version_before(
                vs,
                #[trigger] unapplied(order, vs, applied)[a] as int,
                #[trigger] unapplied(order, vs, applied)[b] as int,
            ),
    decreases order.len(),
{
    if order.len() > 0 {
        let init = order.drop_last();
        lemma_unapplied_sorted(init, vs, applied);
        lemma_unapplied_members(init, vs, applied);
        let rest = unapplied(init, vs, applied);
        let res = unapplied(order, vs, applied);
        assert forall|a: int, b: int| 0 <= a < b < res.len() implies version_before(vs, #[trigger] res[a] as int, #[trigger] res[b] as int) by {
            if b < rest.len() {
                assert(res[a] == rest[a] && res[b] == rest[b]);
            } else {
                assert(res[a] == rest[a]);
                assert(rest.contains(rest[a]));
                assert(init.contains(rest[a]));
                let y = choose|y: int| 0 <= y < init.len() && init[y] == rest[a];
                assert(order[y] == rest[a]);
                assert(res[b] == order[order.len() - 1]);
            }
        }
    }
}

/// With distinct versions, `run` applies exactly the migrations not yet
/// applied, each once, in strictly ascending version order.
pub proof fn lemma_pending_plan_shape(vs: Seq<i64>, applied: Seq<i64>)
    requires
        versions_unique(vs),
        vs.len() <= usize::MAX,
    ensures
        forall|k: int|
            0 <= k < pending_of(vs, applied).len() ==> (#[trigger] pending_of(vs, applied)[k] as int)
                < vs.len() && !applied.contains(vs[pending_of(vs, applied)[k] as int]),
        forall|i: int|
            0 <= i < vs.len() && !applied.contains(vs[i]) ==> #[trigger] pending_of(
                vs,
                applied,
            ).contains(i as usize),
        forall|a: int, b: int|
            0 <= a < b < pending_of(vs, applied).len() ==> vs[#[trigger] pending_of(vs, applied)[a] as int]
                < vs[#[trigger] pending_of(vs, applied)[b] as int],
{
    let order = version_order(vs);
    lemma_version_order_exists(vs);
    lemma_unapplied_members(order, vs, applied);
    lemma_unapplied_sorted(order, vs, applied);
    let p = pending_of(vs, applied);
    assert forall|k: int| 0 <= k < p.len() implies (#[trigger] p[k] as int) < vs.len() && !applied.contains(vs[p[k] as int]) by {
        assert(p.contains(p[k]));
        let y = choose|y: int| 0 <= y < order.len() && order[y] == p[k];
    }
    assert forall|i: int| 0 <= i < vs.len() && !applied.contains(vs[i]) implies #[trigger] p.contains(i as usize) by {
        assert(order.contains(i as usize));
        assert((i as usize) as int == i);
        assert(order.contains(i as usize) && !applied.contains(vs[(i as usize) as int]));
    }
    assert forall|a: int, b: int| 0 <= a < b < p.len() implies vs[#[trigger] p[a] as int] < vs[#[trigger] p[b] as int] by {
        assert(version_before(vs, p[a] as int, p[b] as int));
        assert(p.contains(p[a]));
        assert(p.contains(p[b]));
        let ya = choose|y: int| 0 <= y < order.len() && order[y] == p[a];
        let yb = choose|y: int| 0 <= y < order.len() && order[y] == p[b];
        if p[a] == p[b] {
            assert(version_before(vs, p[a] as int, p[b] as int));
        }
    }
}

/// Some order by version and registration exists.
pub proof fn lemma_version_order_exists(vs: Seq<i64>)
    requires
        vs.len() <= usize::MAX,
    ensures
        is_version_order(vs, version_order(vs)),
{
    let o = lex_sorted_indices(vs, vs.len() as int);
    lemma_lex_sorted_indices(vs, vs.len() as int);
}

/// The indices `0..k` sorted by version and registration, built by insertion.
spec fn lex_sorted_indices(vs: Seq<i64>, k: int) -> Seq<usize>
    decreases k,
{
    if k <= 0 {
        Seq::empty()
    } else {
        let o = lex_sorted_indices(vs, k - 1);
        o.insert(insertion_point(vs, o, k - 1), (k - 1) as usize)
    }
}

/// The number of leading members of `o` whose version is at most that of `k`.
spec fn insertion_point(vs: Seq<i64>, o: Seq<usize>, k: int) -> int
    decreases o.len(),
{
    if o.len() == 0 {
        0
    } else if vs[o[0] as int] <= vs[k] {
        1 + insertion_point(vs, o.skip(1), k)
    } else {
        0
    }
}

proof fn lemma_insertion_point(vs: Seq<i64>, o: Seq<usize>, k: int)
    requires
        forall|x: int| 0 <= x < o.len() ==> (#[trigger] o[x] as int) < vs.len(),
        0 <= k < vs.len(),
        forall|a: int, b: int|
            0 <= a < b < o.len() ==> version_before(vs, #[trigger] o[a] as int, #[trigger] o[b] as int),
    ensures
        0 <= insertion_point(vs, o, k) <= o.len(),
        forall|q: int| 0 <= q < insertion_point(vs, o, k) ==> vs[#[trigger] o[q] as int] <= vs[k],
        forall|q: int|
            insertion_point(vs, o, k) <= q < o.len() ==> vs[#[trigger] o[q] as int] > vs[k],
    decreases o.len(),
{
    if o.len() > 0 {
        let t = o.skip(1);
        assert forall|a: int, b: int| 0 <= a < b < t.len() implies version_before(vs, #[trigger] t[a] as int, #[trigger] t[b] as int) by {
            assert(t[a] == o[a + 1] && t[b] == o[b + 1]);
        }
        assert forall|x: int| 0 <= x < t.len() implies (#[trigger] t[x] as int) < vs.len() by {
            assert(t[x] == o[x + 1]);
        }
        lemma_insertion_point(vs, t, k);
        if vs[o[0] as int] <= vs[k] {
            assert forall|q: int| 0 <= q < insertion_point(vs, o, k) implies vs[#[trigger] o[q] as int] <= vs[k] by {
                if q > 0 {
                    assert(o[q] == t[q - 1]);
                }
            }
            assert forall|q: int| insertion_point(vs, o, k) <= q < o.len() implies vs[#[trigger] o[q] as int] > vs[k] by {
                assert(o[q] == t[q - 1]);
            }
        } else {
            assert forall|q: int| 0 <= q < o.len() implies vs[#[trigger] o[q] as int] > vs[k] by {
                if q > 0 {
                    assert(version_before(vs, o[0] as int, o[q] as int));
                }
            }
        }
    }
}

proof fn lemma_lex_sorted_indices(vs: Seq<i64>, k: int)
    requires
        0 <= k <= vs.len(),
        vs.len() <= usize::MAX,
    ensures
        is_prefix_order(vs, lex_sorted_indices(vs, k), k),
        k == vs.len() ==> is_version_order(vs, version_order(vs)),
    decreases k,
{
    if k > 0 {
        lemma_lex_sorted_indices(vs, k - 1);
        let o = lex_sorted_indices(vs, k - 1);
        lemma_insertion_point(vs, o, k - 1);
        assert(((k - 1) as usize) as int == k - 1);
        lemma_insert_in_order(vs, o, insertion_point(vs, o, k - 1), (k - 1) as usize);
    }
    if k == vs.len() {
        let o = lex_sorted_indices(vs, k);
        assert(is_version_order(vs, o));
    }
}

/// `run` is idempotent: once the pending migrations are recorded as applied,
/// nothing is pending any more.
pub proof fn lemma_run_idempotent(vs: Seq<i64>, applied: Seq<i64>)
    requires
        vs.len() <= usize::MAX,
    ensures
        pending_of(
            vs,
            applied + pending_of(vs, applied).map_values(|i: usize| vs[i as int]),
        ).len() == 0,
{
    let order = version_order(vs);
    lemma_version_order_exists(vs);
    lemma_unapplied_members(order, vs, applied);
    let p = pending_of(vs, applied);
    let recorded = p.map_values(|i: usize| vs[i as int]);
    let applied2 = applied + recorded;
    assert forall|k: int| 0 <= k < order.len() implies applied2.contains(vs[#[trigger] order[k] as int]) by {
        let x = order[k];
        assert(order.contains(x));
        if applied.contains(vs[x as int]) {
            let y = choose|y: int| 0 <= y < applied.len() && applied[y] == vs[x as int];
            assert(applied2[y] == vs[x as int]);
        } else {
            assert(p.contains(x));
            let y = choose|y: int| 0 <= y < p.len() && p[y] == x;
            assert(recorded[y] == vs[x as int]);
            assert(applied2[applied.len() + y] == vs[x as int]);
        }
    }
    lemma_unapplied_all_applied(order, vs, applied2);
}

proof fn lemma_unapplied_all_applied(order: Seq<usize>, vs: Seq<i64>, applied: Seq<i64>)
    requires
        forall|k: int| 0 <= k < order.len() ==> applied.contains(vs[#[trigger] order[k] as int]),
    ensures
        unapplied(order, vs, applied).len() == 0,
    decreases order.len(),
{
    if order.len() > 0 {
        let init = order.drop_last();
        assert forall|k: int| 0 <= k < init.len() implies applied.contains(vs[#[trigger] init[k] as int]) by {
            assert(init[k] == order[k]);
        }
        lemma_unapplied_all_applied(init, vs, applied);
        assert(applied.contains(vs[order[order.len() - 1] as int]));
    }
}

/// The versions a rollback of `steps` reverses: the last `steps` applied
/// versions (all of them when fewer are applied), latest first.
pub open spec fn rollback_targets(applied: Seq<i64>, steps: nat) -> Seq<i64> {
    let n: nat = if steps < applied.len() {
        steps
    } else {
        applied.len()
    };
    Seq::new(n, |k: int| applied[applied.len() - 1 - k])
}

/// Rolling back makes the rolled-back migrations pending again: once their
/// versions leave the tracking table (which lists each applied version
/// once), the next `run` applies every registered migration among them.
pub proof fn lemma_rollback_then_pending(vs: Seq<i64>, applied: Seq<i64>, steps: nat)
    requires
        versions_unique(vs),
        vs.len() <= usize::MAX,
        forall|a: int, b: int| 0 <= a < b < applied.len() ==> applied[a] != applied[b],
    ensures
        forall|i: int|
            0 <= i < vs.len() && rollback_targets(applied, steps).contains(vs[i]) ==> #[trigger] pending_of(
                vs,
                applied.take(applied.len() - rollback_targets(applied, steps).len()),
            ).contains(i as usize),
{
    let t = rollback_targets(applied, steps);
    let rest = applied.take(applied.len() - t.len());
    lemma_pending_plan_shape(vs, rest);
    assert forall|i: int| 0 <= i < vs.len() && t.contains(vs[i]) implies #[trigger] pending_of(vs, rest).contains(
        i as usize,
    ) by {
        let j = choose|j: int| 0 <= j < t.len() && t[j] == vs[i];
        assert(t[j] == applied[applied.len() - 1 - j]);
        if rest.contains(vs[i]) {
            let x = choose|x: int| 0 <= x < rest.len() && rest[x] == vs[i];
            assert(applied[x] == applied[applied.len() - 1 - j]);
        }
    }
}

/// Message for an applied version no registered migration can reverse.
pub open spec fn unregistered_message(v: i64) -> Seq<char> {
    "cannot roll back version "@ + signed_decimal(v as int)
        + ": no migration registered for that version"@
}

/// What a rollback does: reverse the migrations at `indices`, in order; then,
/// when `error` is set, stop with it (the next target has no registered
/// migration), otherwise report `targets.len()` migrations rolled back.
#[derive(Debug)]
pub struct RollbackPlan {
    /// The versions to roll back, latest first.
    pub targets: Vec<i64>,
    /// The registered migration of each target that can be rolled back.
    pub indices: Vec<usize>,
    /// The error met at the first target without a registered migration.
    pub error: Option<DuckLakeError>,
}

/// The plan of `rollback(steps)`, given the applied versions in ascending
/// order. Refused when two migrations share a version.
pub fn rollback_plan(versions: &Vec<i64>, applied: &Vec<i64>, steps: usize) -> (r: Result<RollbackPlan, DuckLakeError>)
    ensures
        match first_repeat(versions@) {
            Some(j) => r matches Err(DuckLakeError::Query(m)) && m@ == duplicate_message(
                versions@[j],
            ),
            None => r matches Ok(p) && {
                &&& p.targets@ == rollback_targets(applied@, steps as nat)
                &&& p.indices@.len() <= p.targets@.len()
                &&& forall|k: int|
                    0 <= k < p.indices@.len() ==> (#[trigger] p.indices@[k] as int) < versions@.len()
                        && versions@[p.indices@[k] as int] == p.targets@[k] && forall|j: int|
                        0 <= j < p.indices@[k] ==> versions@[j] != p.targets@[k]
                &&& if p.indices@.len() < p.targets@.len() {
                    &&& !versions@.contains(p.targets@[p.indices@.len() as int])
                    &&& p.error matches Some(DuckLakeError::Query(m)) && m@ == unregistered_message(
                        p.targets@[p.indices@.len() as int],
                    )
                } else {
                    p.error is None
                }
            },
        },
{
    match validate_unique_versions(versions) {
        Ok(()) => {},
        Err(e) => {
            return Err(e);
        },
    }
    let n = applied.len();
    let count = if steps < n {
        steps
    } else {
        n
    };
    let mut targets: Vec<i64> = Vec::new();
    let mut k: usize = 0;
    while k < count
        invariant
            n == applied@.len(),
            count <= n,
            count as nat == rollback_targets(applied@, steps as nat).len(),
            k <= count,
            targets@ == rollback_targets(applied@, steps as nat).take(k as int),
        decreases count - k,
    {
        targets.push(applied[n - 1 - k]);
        assert(targets@ =~= rollback_targets(applied@, steps as nat).take(k + 1));
        k = k + 1;
    }
    assert(targets@ =~= rollback_targets(applied@, steps as nat));
    let mut indices: Vec<usize> = Vec::new();
    let mut t: usize = 0;
    while t < targets.len()
        invariant
            t <= targets@.len(),
            targets@ == rollback_targets(applied@, steps as nat),
            first_repeat(versions@) is None,
            indices@.len() == t,
            forall|k: int|
                0 <= k < indices@.len() ==> (#[trigger] indices@[k] as int) < versions@.len()
                    && versions@[indices@[k] as int] == targets@[k] && forall|j: int|
                    0 <= j < indices@[k] ==> versions@[j] != targets@[k],
        decreases targets@.len() - t,
    {
        let v = targets[t];
        let mut i: usize = 0;
        while i < versions.len() && versions[i] != v
            invariant
                i <= versions@.len(),
                forall|j: int| 0 <= j < i ==> versions@[j] != v,
            decreases versions@.len() - i,
        {
            i = i + 1;
        }
        if i == versions.len() {
            proof {
                assert(!versions@.contains(v)) by {
                    if versions@.contains(v) {
                        let j = choose|j: int| 0 <= j < versions@.len() && versions@[j] == v;
                    }
                }
            }
            let mut m = String::new();
            push_str(&mut m, "cannot roll back version ");
            push_signed_decimal(&mut m, v);
            push_str(&mut m, ": no migration registered for that version");
            assert(m@ =~= unregistered_message(v));
            return Ok(RollbackPlan { targets, indices, error: Some(DuckLakeError::Query(m)) });
        }
        indices.push(i);
        t = t + 1;
    }
    Ok(RollbackPlan { targets, indices, error: None })
}

/// The applied-at value of the last tracking row for version `v`, if any row
/// records it.
pub open spec fn last_applied(rows: Seq<(i64, Option<String>)>, v: i64) -> Option<Option<String>>
    decreases rows.len(),
{
    if rows.len() == 0 {
        None
    } else if rows.last().0 == v {
        Some(rows.last().1)
    } else {
        last_applied(rows.drop_last(), v)
    }
}

/// `st` reports the migration of `version` and `description` against the
/// tracking rows `rows`.
pub open spec fn reports(
    st: MigrationStatus,
    version: i64,
    description: String,
    rows: Seq<(i64, Option<String>)>,
) -> bool {
    &&& st.version == version
    &&& st.description@ == description@
    &&& st.applied == (last_applied(rows, version) is Some)
    &&& st.applied_at == match last_applied(rows, version) {
        Some(at) => at,
        None => None,
    }
}

/// The versions of a list of registered migrations.
pub open spec fn versions_of(migrations: Seq<(i64, String)>) -> Seq<i64> {
    migrations.map_values(|m: (i64, String)| m.0)
}

fn find_applied(rows: &Vec<(i64, Option<String>)>, v: i64) -> (r: Option<Option<String>>)
    ensures
        r == last_applied(rows@, v),
{
    let mut i: usize = rows.len();
    assert(rows@.take(i as int) =~= rows@);
    while i > 0
        invariant
            i <= rows@.len(),
            last_applied(rows@, v) == last_applied(rows@.take(i as int), v),
        decreases i,
    {
        proof {
            let t = rows@.take(i as int);
            assert(t.drop_last() =~= rows@.take(i - 1));
            assert(t.last() == rows@[i - 1]);
        }
        if rows[i - 1].0 == v {
            let at = match &rows[i - 1].1 {
                Some(a) => Some(a.clone()),
                None => None,
            };
            return Some(at);
        }
        i = i - 1;
    }
    assert(rows@.take(0) =~= Seq::<(i64, Option<String>)>::empty());
    None
}

/// The status of every registered migration against the tracking rows
/// `rows` (version and applied-at time), in version order.
pub fn status_list(migrations: &Vec<(i64, String)>, rows: &Vec<(i64, Option<String>)>) -> (r: Vec<MigrationStatus>)
    ensures
        r@.len() == migrations@.len(),
        forall|k: int|
            0 <= k < r@.len() ==> reports(
                #[trigger] r@[k],
                migrations@[version_order(versions_of(migrations@))[k] as int].0,
                migrations@[version_order(versions_of(migrations@))[k] as int].1,
                rows@,
            ),
        forall|a: int, b: int| 0 <= a < b < r@.len() ==> (#[trigger] r@[a]).version <= (#[trigger] r@[b]).version,
        is_version_order(versions_of(migrations@), version_order(versions_of(migrations@))),
{
    let mut versions: Vec<i64> = Vec::new();
    let mut i: usize = 0;
    while i < migrations.len()
        invariant
            i <= migrations@.len(),
            versions@ == versions_of(migrations@).take(i as int),
        decreases migrations@.len() - i,
    {
        versions.push(migrations[i].0);
        assert(versions@ =~= versions_of(migrations@).take(i + 1));
        i = i + 1;
    }
    assert(versions@ =~= versions_of(migrations@));
    let order = stable_version_order(&versions);
    let mut out: Vec<MigrationStatus> = Vec::new();
    let mut k: usize = 0;
    while k < order.len()
        invariant
            k <= order@.len(),
            versions@ == versions_of(migrations@),
            order@ == version_order(versions_of(migrations@)),
            is_version_order(versions@, order@),
            out@.len() == k,
            forall|x: int|
                0 <= x < k ==> reports(
                    #[trigger] out@[x],
                    migrations@[order@[x] as int].0,
                    migrations@[order@[x] as int].1,
                    rows@,
                ),
        decreases order@.len() - k,
    {
        let m = &migrations[order[k]];
        let found = find_applied(rows, m.0);
        let st = match found {
            Some(at) => MigrationStatus {
                version: m.0,
                description: m.1.clone(),
                applied: true,
                applied_at: at,
            },
            None => MigrationStatus {
                version: m.0,
                description: m.1.clone(),
                applied: false,
                applied_at: None,
            },
        };
        out.push(st);
        k = k + 1;
    }
    proof {
        let vs = versions@;
        let o = order@;
        assert forall|a: int, b: int| 0 <= a < b < out@.len() implies (#[trigger] out@[a]).version <= (
        #[trigger] out@[b]).version by {
            assert(version_before(vs, o[a] as int, o[b] as int));
            assert(vs[o[a] as int] == migrations@[o[a] as int].0);
            assert(vs[o[b] as int] == migrations@[o[b] as int].0);
        }
    }
    out
}

} // verus!
