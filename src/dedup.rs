use vstd::prelude::*;
use crate::schema::{fk_key, ForeignKey};

verus! {

/// Some foreign key of `s` has the structural identity `k`.
pub open spec fn key_seen(s: Seq<ForeignKey>, k: (Seq<Seq<char>>, Seq<char>, Seq<Seq<char>>)) -> bool {
    exists|j: int| 0 <= j < s.len() && fk_key(#[trigger] s[j]) == k
}

/// `s` with every foreign key dropped whose identity an earlier one already had.
pub open spec fn dedup_fks(s: Seq<ForeignKey>) -> Seq<ForeignKey>
    decreases s.len(),
{
    if s.len() == 0 {
        s
    } else {
        let p = dedup_fks(s.drop_last());
        if key_seen(s.drop_last(), fk_key(s.last())) {
            p
        } else {
            p.push(s.last())
        }
    }
}

/// Deduplication keeps exactly the identities that occur.
pub proof fn lemma_dedup_keeps_keys(s: Seq<ForeignKey>, k: (Seq<Seq<char>>, Seq<char>, Seq<Seq<char>>))
    ensures
        key_seen(dedup_fks(s), k) == key_seen(s, k),
    decreases s.len(),
{
    if s.len() > 0 {
        let p = s.drop_last();
        let d = dedup_fks(p);
        lemma_dedup_keeps_keys(p, k);
        // key_seen(s, k) <==> key_seen(p, k) || fk_key(s.last()) == k
        if key_seen(s, k) {
            let j = choose|j: int| 0 <= j < s.len() && fk_key(#[trigger] s[j]) == k;
            if j < s.len() - 1 {
                assert(p[j] == s[j]);
            }
        }
        if key_seen(p, k) {
            let j = choose|j: int| 0 <= j < p.len() && fk_key(#[trigger] p[j]) == k;
            assert(s[j] == p[j]);
        }
        if fk_key(s.last()) == k {
            assert(fk_key(s[s.len() - 1]) == k);
        }
        if !key_seen(p, fk_key(s.last())) {
            let e = d.push(s.last());
            assert(dedup_fks(s) == e);
            if key_seen(d, k) {
                let j = choose|j: int| 0 <= j < d.len() && fk_key(#[trigger] d[j]) == k;
                assert(e[j] == d[j]);
            }
            if fk_key(s.last()) == k {
                assert(fk_key(e[d.len() as int]) == k);
            }
            if key_seen(e, k) {
                let j = choose|j: int| 0 <= j < e.len() && fk_key(#[trigger] e[j]) == k;
                if j < d.len() {
                    assert(e[j] == d[j]);
                }
            }
        }
    }
}

/// No two foreign keys left by deduplication share an identity.
pub proof fn lemma_dedup_distinct(s: Seq<ForeignKey>)
    ensures
        forall|i: int, j: int|
            0 <= i < j < dedup_fks(s).len() ==> fk_key(#[trigger] dedup_fks(s)[i]) != fk_key(
                #[trigger] dedup_fks(s)[j],
            ),
    decreases s.len(),
{
    if s.len() > 0 {
        let p = s.drop_last();
        lemma_dedup_distinct(p);
        lemma_dedup_keeps_keys(p, fk_key(s.last()));
        let d = dedup_fks(p);
        if !key_seen(p, fk_key(s.last())) {
            assert forall|i: int, j: int| 0 <= i < j < d.push(s.last()).len() implies fk_key(
                #[trigger] d.push(s.last())[i],
            ) != fk_key(#[trigger] d.push(s.last())[j]) by {
                if j == d.len() {
                    assert(d.push(s.last())[i] == d[i]);
                    if fk_key(d[i]) == fk_key(s.last()) {
                        assert(key_seen(d, fk_key(s.last())));
                    }
                } else {
                    assert(d.push(s.last())[i] == d[i]);
                    assert(d.push(s.last())[j] == d[j]);
                }
            }
        }
    }
}

fn strings_equal(a: &Vec<String>, b: &Vec<String>) -> (r: bool)
    ensures
        r == (a.deep_view() == b.deep_view()),
{
    if a.len() != b.len() {
        assert(a.deep_view().len() != b.deep_view().len());
        return false;
    }
    let mut i: usize = 0;
    while i < a.len()
        invariant
            a@.len() == b@.len(),
            0 <= i <= a@.len(),
            forall|j: int| 0 <= j < i ==> a@[j]@ == b@[j]@,
        decreases a@.len() - i,
    {
        if a[i] != b[i] {
            assert(a.deep_view()[i as int] != b.deep_view()[i as int]);
            return false;
        }
        i = i + 1;
    }
    assert(a.deep_view() =~= b.deep_view());
    true
}

/// Whether the two foreign keys have the same structural identity.
pub fn same_foreign_key(a: &ForeignKey, b: &ForeignKey) -> (r: bool)
    ensures
        r == (fk_key(*a) == fk_key(*b)),
{
    strings_equal(&a.columns, &b.columns) && a.referenced_table == b.referenced_table
        && strings_equal(&a.referenced_columns, &b.referenced_columns)
}

fn seen_before(v: &Vec<ForeignKey>, n: usize) -> (r: bool)
    requires
        n < v@.len(),
    ensures
        r == key_seen(v@.take(n as int), fk_key(v@[n as int])),
{
    let mut j: usize = 0;
    while j < n
        invariant
            n < v@.len(),
            0 <= j <= n,
            forall|m: int| 0 <= m < j ==> fk_key(v@[m]) != fk_key(v@[n as int]),
        decreases n - j,
    {
        if same_foreign_key(&v[j], &v[n]) {
            assert(v@.take(n as int)[j as int] == v@[j as int]);
            return true;
        }
        j = j + 1;
    }
    proof {
        if key_seen(v@.take(n as int), fk_key(v@[n as int])) {
            let m = choose|m: int|
                0 <= m < n && fk_key(#[trigger] v@.take(n as int)[m]) == fk_key(v@[n as int]);
            assert(v@.take(n as int)[m] == v@[m]);
        }
    }
    false
}

/// Removes every foreign key whose structural identity an earlier one already
/// has, keeping the first occurrence and the order.
pub fn clear_duplicates(v: &mut Vec<ForeignKey>)
    ensures
        final(v)@ == dedup_fks(old(v)@),
{
    let ghost o = v@;
    let total: usize = v.len();
    let mut i: usize = 0;
    let mut k: usize = 0;
    while i < v.len()
        invariant
            0 <= k <= o.len(),
            o.len() == total,
            i == dedup_fks(o.take(k as int)).len(),
            v@.len() == i + o.len() - k,
            v@ == dedup_fks(o.take(k as int)) + o.skip(k as int),
        decreases v@.len() - i,
    {
        proof {
            assert(o.take(k as int + 1).drop_last() == o.take(k as int));
            assert(o.take(k as int + 1).last() == o[k as int]);
            assert(v@[i as int] == o[k as int]);
            assert(v@.take(i as int) == dedup_fks(o.take(k as int)));
            lemma_dedup_keeps_keys(o.take(k as int), fk_key(o[k as int]));
        }
        if seen_before(v, i) {
            v.remove(i);
            proof {
                assert(v@ =~= dedup_fks(o.take(k as int + 1)) + o.skip(k as int + 1));
            }
        } else {
            i = i + 1;
            proof {
                assert(v@ =~= dedup_fks(o.take(k as int + 1)) + o.skip(k as int + 1));
            }
        }
        k = k + 1;
    }
    assert(k == o.len()) by {
        if k < o.len() {
            assert(v@.len() > i);
        }
    };
    assert(o.take(o.len() as int) == o);
    assert(v@ =~= dedup_fks(o));
}

} // verus!
