//! Association lists (a sequence of keys beside a sequence of values) read
//! as finite maps.

use vstd::prelude::*;

verus! {

/// The map that sends `ks[i]` to `vs[i]`.
pub open spec fn assoc_map<A, B>(ks: Seq<A>, vs: Seq<B>) -> Map<A, B> {
    Map::new(|k: A| ks.contains(k), |k: A| vs[ks.index_of(k)])
}

pub proof fn lemma_assoc_at<A, B>(ks: Seq<A>, vs: Seq<B>, i: int)
    requires
        ks.no_duplicates(),
        0 <= i < ks.len(),
    ensures
        assoc_map(ks, vs).dom().contains(ks[i]),
        assoc_map(ks, vs)[ks[i]] == vs[i],
{
    assert(ks.contains(ks[i]));
    let j = ks.index_of(ks[i]);
    assert(0 <= j < ks.len() && ks[j] == ks[i]);
}

pub proof fn lemma_assoc_all<A, B>(ks: Seq<A>, vs: Seq<B>)
    requires
        ks.no_duplicates(),
    ensures
        forall|i: int|
            0 <= i < ks.len() ==> #[trigger] assoc_map(ks, vs).dom().contains(ks[i])
                && assoc_map(ks, vs)[ks[i]] == vs[i],
        forall|k: A|
            #[trigger] assoc_map(ks, vs).dom().contains(k) ==> exists|i: int|
                0 <= i < ks.len() && ks[i] == k,
{
    assert forall|i: int| 0 <= i < ks.len() implies #[trigger] assoc_map(ks, vs).dom().contains(
        ks[i],
    ) && assoc_map(ks, vs)[ks[i]] == vs[i] by {
        lemma_assoc_at(ks, vs, i);
    }
}

pub proof fn lemma_assoc_len<A, B>(ks: Seq<A>, vs: Seq<B>)
    requires
        ks.no_duplicates(),
    ensures
        assoc_map(ks, vs).dom() == ks.to_set(),
        assoc_map(ks, vs).dom().finite(),
        assoc_map(ks, vs).len() == ks.len(),
{
    broadcast use vstd::seq_lib::seq_to_set_is_finite;

    assert(assoc_map(ks, vs).dom() =~= ks.to_set());
    ks.unique_seq_to_set();
}

pub proof fn lemma_assoc_push<A, B>(ks: Seq<A>, vs: Seq<B>, k: A, v: B)
    requires
        ks.no_duplicates(),
        ks.len() == vs.len(),
        !ks.contains(k),
    ensures
        ks.push(k).no_duplicates(),
        assoc_map(ks.push(k), vs.push(v)) == assoc_map(ks, vs).insert(k, v),
{
    let ks2 = ks.push(k);
    let vs2 = vs.push(v);
    assert(ks2.no_duplicates()) by {
        assert forall|i: int, j: int|
            0 <= i < ks2.len() && 0 <= j < ks2.len() && i != j implies ks2[i] != ks2[j] by {
            if i == ks.len() as int {
                assert(ks.contains(ks[j]));
            } else if j == ks.len() as int {
                assert(ks.contains(ks[i]));
            }
        }
    }
    lemma_assoc_all(ks, vs);
    lemma_assoc_all(ks2, vs2);
    let m = assoc_map(ks, vs).insert(k, v);
    assert forall|x: A| #[trigger] assoc_map(ks2, vs2).dom().contains(x) <==> m.dom().contains(x) by {
        if assoc_map(ks2, vs2).dom().contains(x) {
            let i = choose|i: int| 0 <= i < ks2.len() && ks2[i] == x;
            if i < ks.len() {
                assert(ks[i] == x);
            }
        }
        if m.dom().contains(x) && x != k {
            let i = choose|i: int| 0 <= i < ks.len() && ks[i] == x;
            assert(ks2[i] == x);
        }
        if x == k {
            assert(ks2[ks.len() as int] == k);
        }
    }
    assert forall|x: A| #[trigger] assoc_map(ks2, vs2).dom().contains(x) implies assoc_map(
        ks2,
        vs2,
    )[x] == m[x] by {
        let i = choose|i: int| 0 <= i < ks2.len() && ks2[i] == x;
        if i < ks.len() {
            assert(ks[i] == x);
            assert(x != k) by {
                assert(ks.contains(ks[i]));
            }
        }
    }
    assert(assoc_map(ks2, vs2) =~= m);
}

pub proof fn lemma_assoc_update<A, B>(ks: Seq<A>, vs: Seq<B>, i: int, v: B)
    requires
        ks.no_duplicates(),
        ks.len() == vs.len(),
        0 <= i < ks.len(),
    ensures
        assoc_map(ks, vs.update(i, v)) == assoc_map(ks, vs).insert(ks[i], v),
{
    let vs2 = vs.update(i, v);
    lemma_assoc_all(ks, vs);
    lemma_assoc_all(ks, vs2);
    let m = assoc_map(ks, vs).insert(ks[i], v);
    assert forall|x: A| #[trigger] assoc_map(ks, vs2).dom().contains(x) <==> m.dom().contains(x) by {
        if x == ks[i] {
            assert(assoc_map(ks, vs2).dom().contains(ks[i]));
        }
    }
    assert forall|x: A| #[trigger] assoc_map(ks, vs2).dom().contains(x) implies assoc_map(
        ks,
        vs2,
    )[x] == m[x] by {
        let j = choose|j: int| 0 <= j < ks.len() && ks[j] == x;
        assert(assoc_map(ks, vs2)[ks[j]] == vs2[j]);
    }
    assert(assoc_map(ks, vs2) =~= m);
}

pub proof fn lemma_assoc_remove<A, B>(ks: Seq<A>, vs: Seq<B>, i: int)
    requires
        ks.no_duplicates(),
        ks.len() == vs.len(),
        0 <= i < ks.len(),
    ensures
        ks.remove(i).no_duplicates(),
        assoc_map(ks.remove(i), vs.remove(i)) == assoc_map(ks, vs).remove(ks[i]),
{
    let ks2 = ks.remove(i);
    let vs2 = vs.remove(i);
    ks.remove_ensures(i);
    vs.remove_ensures(i);
    // position in `ks` of the element at position `j` of `ks2`
    assert forall|j: int| 0 <= j < ks2.len() implies #[trigger] ks2[j] == ks[if j < i {
        j
    } else {
        j + 1
    }] && vs2[j] == vs[if j < i {
        j
    } else {
        j + 1
    }] by {}
    assert(ks2.no_duplicates()) by {
        assert forall|a: int, b: int|
            0 <= a < ks2.len() && 0 <= b < ks2.len() && a != b implies ks2[a] != ks2[b] by {
            let a0 = if a < i {
                a
            } else {
                a + 1
            };
            let b0 = if b < i {
                b
            } else {
                b + 1
            };
            assert(ks2[a] == ks[a0]);
            assert(ks2[b] == ks[b0]);
        }
    }
    lemma_assoc_all(ks, vs);
    lemma_assoc_all(ks2, vs2);
    let m = assoc_map(ks, vs).remove(ks[i]);
    assert forall|x: A| #[trigger] assoc_map(ks2, vs2).dom().contains(x) <==> m.dom().contains(x) by {
        if assoc_map(ks2, vs2).dom().contains(x) {
            let j = choose|j: int| 0 <= j < ks2.len() && ks2[j] == x;
            let j0 = if j < i {
                j
            } else {
                j + 1
            };
            assert(ks2[j] == ks[j0]);
            assert(ks[j0] != ks[i]);
        }
        if m.dom().contains(x) {
            let j = choose|j: int| 0 <= j < ks.len() && ks[j] == x;
            assert(j != i);
            let j2 = if j < i {
                j
            } else {
                j - 1
            };
            assert(ks2[j2] == ks[j]);
        }
    }
    assert forall|x: A| #[trigger] assoc_map(ks2, vs2).dom().contains(x) implies assoc_map(
        ks2,
        vs2,
    )[x] == m[x] by {
        let j = choose|j: int| 0 <= j < ks2.len() && ks2[j] == x;
        let j0 = if j < i {
            j
        } else {
            j + 1
        };
        assert(ks2[j] == ks[j0]);
        assert(vs2[j] == vs[j0]);
        assert(assoc_map(ks, vs)[ks[j0]] == vs[j0]);
    }
    assert(assoc_map(ks2, vs2) =~= m);
}

} // verus!
