//! Header mappings: a list of (name, value) pairs with unique names, kept in
//! insertion order, with first-match lookup and replace-or-append insertion.
use vstd::prelude::*;

verus! {

use crate::text::bytes_eq;

/// The mathematical reading of a header list: each pair as byte sequences.
pub open spec fn hview(h: Seq<(Vec<u8>, Vec<u8>)>) -> Seq<(Seq<u8>, Seq<u8>)> {
    h.map_values(|p: (Vec<u8>, Vec<u8>)| (p.0@, p.1@))
}

/// The first position at or after `pos` whose name is `k`, or the length.
pub open spec fn key_at(hs: Seq<(Seq<u8>, Seq<u8>)>, k: Seq<u8>, pos: int) -> int
    decreases hs.len() - pos,
{
    if pos < 0 || pos >= hs.len() {
        hs.len() as int
    } else if hs[pos].0 == k {
        pos
    } else {
        key_at(hs, k, pos + 1)
    }
}

/// The value stored under name `k`, if any.
pub open spec fn spec_lookup(hs: Seq<(Seq<u8>, Seq<u8>)>, k: Seq<u8>) -> Option<Seq<u8>> {
    let i = key_at(hs, k, 0);
    if i < hs.len() {
        Some(hs[i].1)
    } else {
        None
    }
}

/// The list after storing `v` under `k`: the first pair named `k` changes its
/// value, or a new pair is appended.
pub open spec fn spec_insert(hs: Seq<(Seq<u8>, Seq<u8>)>, k: Seq<u8>, v: Seq<u8>) -> Seq<
    (Seq<u8>, Seq<u8>),
> {
    let i = key_at(hs, k, 0);
    if i < hs.len() {
        hs.update(i, (k, v))
    } else {
        hs.push((k, v))
    }
}

/// Whether no two pairs share a name.
pub open spec fn unique_keys(hs: Seq<(Seq<u8>, Seq<u8>)>) -> bool {
    forall|i: int, j: int| 0 <= i < j < hs.len() ==> (#[trigger] hs[i]).0 != (#[trigger] hs[j]).0
}

pub proof fn lemma_key_at_properties(hs: Seq<(Seq<u8>, Seq<u8>)>, k: Seq<u8>, pos: int)
    requires
        0 <= pos <= hs.len(),
    ensures
        pos <= key_at(hs, k, pos) <= hs.len(),
        key_at(hs, k, pos) < hs.len() ==> hs[key_at(hs, k, pos)].0 == k,
        forall|j: int| pos <= j < key_at(hs, k, pos) ==> (#[trigger] hs[j]).0 != k,
    decreases hs.len() - pos,
{
    if pos < hs.len() && hs[pos].0 != k {
        lemma_key_at_properties(hs, k, pos + 1);
    }
}

/// Looking a name up after appending a pair: the old value if the name was
/// present, else the appended value for the new name.
pub proof fn lemma_lookup_push(hs: Seq<(Seq<u8>, Seq<u8>)>, k: Seq<u8>, v: Seq<u8>, q: Seq<u8>)
    ensures
        spec_lookup(hs, q) is Some ==> spec_lookup(hs.push((k, v)), q) == spec_lookup(hs, q),
        spec_lookup(hs, q) is None && q == k ==> spec_lookup(hs.push((k, v)), q) == Some(v),
        spec_lookup(hs, q) is None && q != k ==> spec_lookup(hs.push((k, v)), q) is None,
{
    let hs2 = hs.push((k, v));
    assert(forall|j: int| 0 <= j < hs.len() ==> hs2[j] == hs[j]);
    lemma_key_at_properties(hs, q, 0);
    lemma_key_at_properties(hs2, q, 0);
    lemma_key_at_push(hs, k, v, q, 0);
}

proof fn lemma_key_at_push(hs: Seq<(Seq<u8>, Seq<u8>)>, k: Seq<u8>, v: Seq<u8>, q: Seq<u8>, pos: int)
    requires
        0 <= pos <= hs.len(),
    ensures
        key_at(hs, q, pos) < hs.len() ==> key_at(hs.push((k, v)), q, pos) == key_at(hs, q, pos),
        key_at(hs, q, pos) == hs.len() && q == k ==> key_at(hs.push((k, v)), q, pos)
            == hs.len() as int,
        key_at(hs, q, pos) == hs.len() && q != k ==> key_at(hs.push((k, v)), q, pos) == hs.len()
            + 1,
    decreases hs.len() - pos,
{
    let hs2 = hs.push((k, v));
    assert(forall|j: int| 0 <= j < hs.len() ==> hs2[j] == hs[j]);
    assert(hs2[hs.len() as int] == (k, v));
    if pos < hs.len() && hs[pos].0 != q {
        lemma_key_at_push(hs, k, v, q, pos + 1);
    } else if pos == hs.len() {
        assert(key_at(hs, q, pos) == hs.len());
        if q != k {
            assert(key_at(hs2, q, pos + 1) == hs.len() + 1);
        }
    }
}

/// Insertion keeps names unique.
pub proof fn lemma_insert_unique(hs: Seq<(Seq<u8>, Seq<u8>)>, k: Seq<u8>, v: Seq<u8>)
    requires
        unique_keys(hs),
    ensures
        unique_keys(spec_insert(hs, k, v)),
{
    lemma_key_at_properties(hs, k, 0);
    let i = key_at(hs, k, 0);
    if i < hs.len() {
        let hs2 = hs.update(i, (k, v));
        assert(forall|j: int| 0 <= j < hs.len() ==> (#[trigger] hs2[j]).0 == hs[j].0);
    } else {
        let hs2 = hs.push((k, v));
        assert(forall|j: int| 0 <= j < hs.len() ==> (#[trigger] hs2[j]).0 == hs[j].0);
        assert(forall|j: int| 0 <= j < hs.len() ==> (#[trigger] hs[j]).0 != k);
    }
}

/// The value stored under `k`, if any.
pub fn header_get<'a>(h: &'a Vec<(Vec<u8>, Vec<u8>)>, k: &[u8]) -> (r: Option<&'a Vec<u8>>)
    ensures
        match r {
            Some(v) => spec_lookup(hview(h@), k@) == Some(v@),
            None => spec_lookup(hview(h@), k@) is None,
        },
{
    let ghost hs = hview(h@);
    let mut i: usize = 0;
    while i < h.len()
        invariant
            0 <= i <= h@.len(),
            hs == hview(h@),
            hs.len() == h@.len(),
            key_at(hs, k@, 0) == key_at(hs, k@, i as int),
        decreases h@.len() - i,
    {
        proof {
            assert(hs[i as int] == (h@[i as int].0@, h@[i as int].1@));
        }
        if bytes_eq(h[i].0.as_slice(), k) {
            return Some(&h[i].1);
        }
        i += 1;
    }
    None
}

/// Stores `v` under `k`: replaces the value of the first pair named `k`, or
/// appends a new pair.
pub fn header_insert(h: &mut Vec<(Vec<u8>, Vec<u8>)>, k: Vec<u8>, v: Vec<u8>)
    ensures
        hview(final(h)@) == spec_insert(hview(old(h)@), k@, v@),
        unique_keys(hview(old(h)@)) ==> unique_keys(hview(final(h)@)),
{
    let ghost hs = hview(old(h)@);
    let mut i: usize = 0;
    while i < h.len()
        invariant
            0 <= i <= h@.len(),
            h@ == old(h)@,
            hs == hview(h@),
            hs.len() == h@.len(),
            key_at(hs, k@, 0) == key_at(hs, k@, i as int),
        decreases h@.len() - i,
    {
        proof {
            assert(hs[i as int] == (h@[i as int].0@, h@[i as int].1@));
        }
        if bytes_eq(h[i].0.as_slice(), k.as_slice()) {
            let _replaced = h.remove(i);
            h.insert(i, (k, v));
            proof {
                assert(hview(h@) =~= hs.update(i as int, (hs[i as int].0, v@)));
                assert(hs.update(i as int, (hs[i as int].0, v@)) =~= spec_insert(hs, k@, v@));
                if unique_keys(hs) {
                    lemma_insert_unique(hs, k@, v@);
                }
            }
            return;
        }
        i += 1;
    }
    h.push((k, v));
    proof {
        assert(hview(h@) =~= hs.push((k@, v@)));
        assert(hs.push((k@, v@)) =~= spec_insert(hs, k@, v@));
        if unique_keys(hs) {
            lemma_insert_unique(hs, k@, v@);
        }
    }
}

} // verus!
