//! Collections kept in strictly increasing order of name, one item per name.
use vstd::prelude::*;

use crate::text::{lemma_seq_lt_total, lemma_seq_lt_trans, seq_lt, str_eq, str_lt};

verus! {

/// An item that has a name.
pub trait Named {
    spec fn key(&self) -> Seq<char>;

    fn name(&self) -> (r: &str)
        ensures
            r@ == self.key(),
    ;
}

/// Names strictly increase along `v`, so none repeats.
pub open spec fn strictly_sorted<T: Named>(v: Seq<T>) -> bool {
    forall|i: int, j: int| 0 <= i < j < v.len() ==> seq_lt(#[trigger] v[i].key(), #[trigger] v[j].key())
}

/// Some item of `v` has the name `n`.
pub open spec fn has_key<T: Named>(v: Seq<T>, n: Seq<char>) -> bool {
    exists|i: int| 0 <= i < v.len() && #[trigger] v[i].key() == n
}

/// Every item of `old` is still in `new`.
pub open spec fn keeps<T>(new: Seq<T>, old: Seq<T>) -> bool {
    forall|j: int| 0 <= j < old.len() ==> new.contains(#[trigger] old[j])
}

/// What inserting `x` at `p` keeps and adds.
pub proof fn lemma_inserted<T: Named>(old: Seq<T>, p: int, x: T)
    requires
        0 <= p <= old.len(),
    ensures
        keeps(old.insert(p, x), old),
        forall|q: int|
            0 <= q < old.len() + 1 ==> old.contains(#[trigger] old.insert(p, x)[q]) || old.insert(p, x)[q] == x,
        forall|n: Seq<char>| #[trigger] has_key(old.insert(p, x), n) <==> has_key(old, n) || n == x.key(),
{
    let new = old.insert(p, x);
    assert forall|j: int| 0 <= j < old.len() implies new.contains(#[trigger] old[j]) by {
        if j < p {
            assert(new[j] == old[j]);
        } else {
            assert(new[j + 1] == old[j]);
        }
    }
    assert forall|q: int| 0 <= q < old.len() + 1 implies old.contains(#[trigger] new[q]) || new[q] == x by {
        if q < p {
            assert(new[q] == old[q]);
        } else if q > p {
            assert(new[q] == old[q - 1]);
        }
    }
    assert forall|n: Seq<char>| #[trigger] has_key(new, n) <==> has_key(old, n) || n == x.key() by {
        if has_key(new, n) {
            let q = choose|q: int| 0 <= q < new.len() && new[q].key() == n;
            if q < p {
                assert(new[q] == old[q]);
            } else if q > p {
                assert(new[q] == old[q - 1]);
            }
        }
        if has_key(old, n) {
            let q = choose|q: int| 0 <= q < old.len() && old[q].key() == n;
            if q < p {
                assert(new[q] == old[q]);
            } else {
                assert(new[q + 1] == old[q]);
            }
        }
        assert(new[p] == x);
    }
}

/// Position at which an item named `n` belongs in `v`, and whether one is there.
pub fn locate<T: Named>(v: &Vec<T>, n: &str) -> (r: (usize, bool))
    requires
        strictly_sorted(v@),
    ensures
        r.0 <= v@.len(),
        forall|i: int| 0 <= i < r.0 ==> seq_lt(#[trigger] v@[i].key(), n@),
        r.1 == has_key(v@, n@),
        r.1 ==> r.0 < v@.len() && v@[r.0 as int].key() == n@,
        !r.1 ==> forall|i: int| r.0 <= i < v@.len() ==> seq_lt(n@, #[trigger] v@[i].key()),
{
    let mut p: usize = 0;
    while p < v.len() && str_lt(v[p].name(), n)
        invariant
            p <= v@.len(),
            forall|i: int| 0 <= i < p ==> seq_lt(#[trigger] v@[i].key(), n@),
        decreases v@.len() - p,
    {
        p += 1;
    }
    if p < v.len() && str_eq(v[p].name(), n) {
        return (p, true);
    }
    proof {
        if p < v@.len() {
            lemma_seq_lt_total(v@[p as int].key(), n@);
            assert forall|i: int| p <= i < v@.len() implies seq_lt(n@, #[trigger] v@[i].key()) by {
                if i > p {
                    lemma_seq_lt_trans(n@, v@[p as int].key(), v@[i].key());
                }
            }
        }
        assert forall|i: int| 0 <= i < v@.len() implies #[trigger] v@[i].key() != n@ by {
            lemma_seq_lt_total(v@[i].key(), n@);
        }
    }
    (p, false)
}

/// Inserts `x` at its place, unless an item of the same name is there already,
/// in which case `x` is handed back.
pub fn insert_sorted<T: Named>(v: &mut Vec<T>, x: T) -> (r: Result<(), T>)
    requires
        strictly_sorted(old(v)@),
    ensures
        strictly_sorted(final(v)@),
        has_key(old(v)@, x.key()) <==> r is Err,
        r is Err ==> final(v)@ == old(v)@ && r->Err_0 == x,
        r is Ok ==> exists|p: int| 0 <= p <= old(v)@.len() && final(v)@ == old(v)@.insert(p, x),
{
    let (p, found) = locate(v, x.name());
    if found {
        return Err(x);
    }
    let ghost k = x.key();
    v.insert(p, x);
    proof {
        assert forall|i: int, j: int| 0 <= i < j < v@.len() implies seq_lt(
            #[trigger] v@[i].key(),
            #[trigger] v@[j].key(),
        ) by {
            let o = old(v)@;
            if j < p {
                assert(seq_lt(o[i].key(), o[j].key()));
            } else if j == p {
                assert(seq_lt(o[i].key(), k));
            } else if i == p {
                assert(seq_lt(k, o[j - 1].key()));
            } else if i < p {
                assert(seq_lt(o[i].key(), o[j - 1].key()));
            } else {
                assert(seq_lt(o[i - 1].key(), o[j - 1].key()));
            }
        }
    }
    Ok(())
}

} // verus!
