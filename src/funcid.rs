//! Wire numbering: every function of every interface gets a dense integer ID.
use vstd::prelude::*;

use crate::function::Function;
use crate::interface::Interface;
use crate::sorted::{strictly_sorted, Named};
use crate::text::{lemma_seq_lt_total, lemma_seq_lt_trans, seq_lt, str_eq};

verus! {

/// IDs below this are kept for the protocol's own control messages.
pub const FIRST_FUNCTION_ID: u32 = 16;

/// The ID of one function of one interface.
#[derive(Debug)]
pub struct FunctionId {
    pub interface: String,
    pub function: String,
    pub id: u32,
}

/// (interface name, function name) of every function, interface by interface.
pub open spec fn flat_pairs(is: Seq<Interface>) -> Seq<(Seq<char>, Seq<char>)>
    decreases is.len(),
{
    if is.len() == 0 {
        seq![]
    } else {
        flat_pairs(is.drop_last()) + is.last().functions@.map_values(
            |f: Function| (is.last().name@, f.name@),
        )
    }
}

/// Interfaces sorted by name, each with its functions sorted by name.
pub open spec fn all_sorted(is: Seq<Interface>) -> bool {
    strictly_sorted(is) && forall|i: int| 0 <= i < is.len() ==> strictly_sorted(#[trigger] is[i].functions@)
}

/// Order of (interface, function) name pairs: by interface, then by function.
pub open spec fn pair_lt(p: (Seq<char>, Seq<char>), q: (Seq<char>, Seq<char>)) -> bool {
    seq_lt(p.0, q.0) || (p.0 == q.0 && seq_lt(p.1, q.1))
}

/// Pairs strictly increase along `s`.
pub open spec fn pairs_increasing(s: Seq<(Seq<char>, Seq<char>)>) -> bool {
    forall|i: int, j: int| 0 <= i < j < s.len() ==> pair_lt(#[trigger] s[i], #[trigger] s[j])
}

/// The ID of the function at position `k` of [`flat_pairs`].
pub open spec fn id_at(k: int) -> int {
    FIRST_FUNCTION_ID + k
}

/// The table lists the functions in order with their IDs.
pub open spec fn is_id_table(t: Seq<FunctionId>, is: Seq<Interface>) -> bool {
    &&& t.len() == flat_pairs(is).len()
    &&& forall|k: int|
        0 <= k < t.len() ==> (#[trigger] t[k]).interface@ == flat_pairs(is)[k].0 && t[k].function@
            == flat_pairs(is)[k].1 && t[k].id == id_at(k)
}

pub(crate) proof fn lemma_flat_len(is: Seq<Interface>, j: int)
    requires
        0 <= j <= is.len(),
    ensures
        flat_pairs(is.subrange(0, j)).len() <= flat_pairs(is).len(),
    decreases is.len(),
{
    if j < is.len() {
        assert(is.drop_last().subrange(0, j) =~= is.subrange(0, j));
        lemma_flat_len(is.drop_last(), j);
    } else {
        assert(is.subrange(0, j) =~= is);
    }
}

/// Assigns IDs from 16 upwards, one per function, in the order of
/// (interface name, function name): interface by interface, sorted by name,
/// and function by function within each, sorted by name.
pub fn make_func_id_map(interfaces: &Vec<Interface>) -> (r: Vec<FunctionId>)
    requires
        all_sorted(interfaces@),
        flat_pairs(interfaces@).len() + FIRST_FUNCTION_ID <= u32::MAX,
    ensures
        is_id_table(r@, interfaces@),
        pairs_increasing(flat_pairs(interfaces@)),
{
    proof {
        lemma_flat_increasing(interfaces@);
    }
    let ghost is = interfaces@;
    let mut map: Vec<FunctionId> = Vec::new();
    let mut next: u32 = FIRST_FUNCTION_ID;
    let mut i: usize = 0;
    while i < interfaces.len()
        invariant
            i <= is.len(),
            is == interfaces@,
            flat_pairs(is).len() + FIRST_FUNCTION_ID <= u32::MAX,
            is_id_table(map@, is.subrange(0, i as int)),
            next == FIRST_FUNCTION_ID + map@.len(),
        decreases is.len() - i,
    {
        let iface = &interfaces[i];
        let ghost base = map@.len();
        let ghost pre = flat_pairs(is.subrange(0, i as int));
        let ghost add = iface.functions@.map_values(|f: Function| (iface.name@, f.name@));
        proof {
            assert(is.subrange(0, i + 1).drop_last() =~= is.subrange(0, i as int));
            assert(flat_pairs(is.subrange(0, i + 1)) == pre + add);
            lemma_flat_len(is, i + 1);
        }
        let mut j: usize = 0;
        while j < iface.functions.len()
            invariant
                j <= iface.functions@.len(),
                map@.len() == base + j,
                pre.len() == base,
                base + add.len() + FIRST_FUNCTION_ID <= u32::MAX,
                add == iface.functions@.map_values(|f: Function| (iface.name@, f.name@)),
                next == FIRST_FUNCTION_ID + map@.len(),
                forall|k: int|
                    0 <= k < map@.len() ==> (#[trigger] map@[k]).interface@ == (pre + add)[k].0
                        && map@[k].function@ == (pre + add)[k].1 && map@[k].id == id_at(k),
            decreases iface.functions@.len() - j,
        {
            assert((pre + add)[base + j] == add[j as int]);
            assert(add[j as int] == (iface.name@, iface.functions@[j as int].name@));
            assert(iface.functions@[j as int] == iface.functions[j as int]);
            let ghost before = map@;
            map.push(
                FunctionId {
                    interface: iface.name.clone(),
                    function: iface.functions[j].name.clone(),
                    id: next,
                },
            );
            assert(forall|k: int| 0 <= k < before.len() ==> map@[k] == before[k]);
            next = next + 1;
            j += 1;
        }
        i += 1;
    }
    assert(is.subrange(0, i as int) =~= is);
    map
}

/// The ID of `function` of `interface` in the table, if it is there.
pub fn function_id(table: &Vec<FunctionId>, interface: &str, function: &str) -> (r: Option<u32>)
    ensures
        match r {
            Some(id) => exists|k: int|
                0 <= k < table@.len() && (#[trigger] table@[k]).interface@ == interface@ && table@[k].function@
                    == function@ && table@[k].id == id,
            None => forall|k: int|
                0 <= k < table@.len() ==> !((#[trigger] table@[k]).interface@ == interface@
                    && table@[k].function@ == function@),
        },
{
    let mut k: usize = 0;
    while k < table.len()
        invariant
            k <= table@.len(),
            forall|j: int|
                0 <= j < k ==> !((#[trigger] table@[j]).interface@ == interface@ && table@[j].function@
                    == function@),
        decreases table@.len() - k,
    {
        if str_eq(table[k].interface.as_str(), interface) && str_eq(table[k].function.as_str(), function) {
            return Some(table[k].id);
        }
        k += 1;
    }
    None
}

proof fn lemma_pair_lt(p: (Seq<char>, Seq<char>), q: (Seq<char>, Seq<char>), r: (Seq<char>, Seq<char>))
    ensures
        !(pair_lt(p, q) && pair_lt(q, p)),
        !pair_lt(p, p),
        p != q ==> pair_lt(p, q) || pair_lt(q, p),
        pair_lt(p, q) && pair_lt(q, r) ==> pair_lt(p, r),
{
    lemma_seq_lt_total(p.0, q.0);
    lemma_seq_lt_total(p.1, q.1);
    lemma_seq_lt_total(p.0, p.0);
    lemma_seq_lt_total(p.1, p.1);
    if pair_lt(p, q) && pair_lt(q, r) {
        if seq_lt(p.0, q.0) && seq_lt(q.0, r.0) {
            lemma_seq_lt_trans(p.0, q.0, r.0);
        }
        if p.0 == q.0 && q.0 == r.0 {
            lemma_seq_lt_trans(p.1, q.1, r.1);
        }
    }
}

proof fn lemma_flat_names(is: Seq<Interface>)
    ensures
        forall|k: int|
            0 <= k < flat_pairs(is).len() ==> exists|m: int|
                0 <= m < is.len() && (#[trigger] flat_pairs(is)[k]).0 == is[m].name@,
    decreases is.len(),
{
    if is.len() > 0 {
        let w = is.drop_last();
        lemma_flat_names(w);
        let add = is.last().functions@.map_values(|f: Function| (is.last().name@, f.name@));
        assert forall|k: int| 0 <= k < flat_pairs(is).len() implies exists|m: int|
            0 <= m < is.len() && (#[trigger] flat_pairs(is)[k]).0 == is[m].name@ by {
            if k < flat_pairs(w).len() {
                assert(flat_pairs(is)[k] == flat_pairs(w)[k]);
                let m = choose|m: int| 0 <= m < w.len() && flat_pairs(w)[k].0 == w[m].name@;
                assert(is[m] == w[m]);
            } else {
                assert(flat_pairs(is)[k] == add[k - flat_pairs(w).len()]);
                assert(flat_pairs(is)[k].0 == is[is.len() - 1].name@);
            }
        }
    }
}

proof fn lemma_flat_increasing(is: Seq<Interface>)
    requires
        all_sorted(is),
    ensures
        pairs_increasing(flat_pairs(is)),
    decreases is.len(),
{
    if is.len() > 0 {
        let w = is.drop_last();
        let last = is.last();
        assert(all_sorted(w)) by {
            assert forall|i: int| 0 <= i < w.len() implies strictly_sorted(#[trigger] w[i].functions@) by {
                assert(w[i] == is[i]);
            }
        }
        lemma_flat_increasing(w);
        lemma_flat_names(w);
        let fw = flat_pairs(w);
        let add = last.functions@.map_values(|f: Function| (last.name@, f.name@));
        let s = flat_pairs(is);
        assert(s == fw + add);
        assert(strictly_sorted(is[is.len() - 1].functions@));
        assert forall|i: int, j: int| 0 <= i < j < s.len() implies pair_lt(#[trigger] s[i], #[trigger] s[j]) by {
            if j < fw.len() {
                assert(pair_lt(fw[i], fw[j]));
            } else if i >= fw.len() {
                let a = i - fw.len();
                let b = j - fw.len();
                assert(seq_lt(last.functions@[a].key(), last.functions@[b].key()));
            } else {
                let m = choose|m: int| 0 <= m < w.len() && fw[i].0 == w[m].name@;
                assert(w[m] == is[m]);
                assert(seq_lt(is[m].key(), is[is.len() - 1].key()));
            }
        }
    }
}

/// For every package whose interfaces, and the functions of each, are sorted
/// by name (as collecting them leaves them), every (interface, function) pair
/// occurs once, so gets one ID; no two functions share an ID; and no function
/// gets an ID below 16.
pub proof fn lemma_function_ids_unique(is: Seq<Interface>)
    requires
        all_sorted(is),
    ensures
        forall|j: int, k: int|
            0 <= j < k < flat_pairs(is).len() ==> #[trigger] flat_pairs(is)[j] != #[trigger] flat_pairs(is)[k]
                && id_at(j) != id_at(k),
        forall|k: int| 0 <= k < flat_pairs(is).len() ==> #[trigger] id_at(k) >= FIRST_FUNCTION_ID,
{
    lemma_flat_increasing(is);
    let s = flat_pairs(is);
    assert forall|j: int, k: int| 0 <= j < k < s.len() implies #[trigger] s[j] != #[trigger] s[k] by {
        lemma_pair_lt(s[j], s[k], s[k]);
    }
}

proof fn lemma_increasing_same_elements(a: Seq<(Seq<char>, Seq<char>)>, b: Seq<(Seq<char>, Seq<char>)>)
    requires
        pairs_increasing(a),
        pairs_increasing(b),
        forall|p: (Seq<char>, Seq<char>)| a.contains(p) <==> b.contains(p),
    ensures
        a == b,
    decreases a.len(),
{
    if a.len() == 0 {
        if b.len() > 0 {
            assert(b.contains(b[0]));
        }
        assert(a =~= b);
    } else {
        assert(a.contains(a[0]));
        assert(b.len() > 0);
        assert(b.contains(b[0]));
        let i = choose|i: int| 0 <= i < a.len() && a[i] == b[0];
        let j = choose|j: int| 0 <= j < b.len() && b[j] == a[0];
        if i > 0 {
            assert(pair_lt(a[0], a[i]));
            if j > 0 {
                assert(pair_lt(b[0], b[j]));
                lemma_pair_lt(a[0], b[0], a[0]);
            } else {
                lemma_pair_lt(a[0], a[0], a[0]);
            }
        }
        assert(a[0] == b[0]);
        let a1 = a.drop_first();
        let b1 = b.drop_first();
        assert forall|p: (Seq<char>, Seq<char>)| a1.contains(p) <==> b1.contains(p) by {
            if a1.contains(p) {
                let x = choose|x: int| 0 <= x < a1.len() && a1[x] == p;
                assert(a.contains(p) && a[x + 1] == p);
                lemma_pair_lt(a[0], a[x + 1], a[0]);
                let y = choose|y: int| 0 <= y < b.len() && b[y] == p;
                if y == 0 {
                    assert(pair_lt(a[0], a[x + 1]));
                }
                assert(b1[y - 1] == p);
            }
            if b1.contains(p) {
                let x = choose|x: int| 0 <= x < b1.len() && b1[x] == p;
                assert(b.contains(p) && b[x + 1] == p);
                lemma_pair_lt(b[0], b[x + 1], b[0]);
                let y = choose|y: int| 0 <= y < a.len() && a[y] == p;
                if y == 0 {
                    assert(pair_lt(b[0], b[x + 1]));
                }
                assert(a1[y - 1] == p);
            }
        }
        lemma_increasing_same_elements(a1, b1);
        assert(a =~= seq![a[0]] + a1);
        assert(b =~= seq![b[0]] + b1);
    }
}

/// Two packages with the same (interface, function) pairs, each sorted by
/// name however their declarations were ordered, list the pairs in the same
/// order, so every function gets the same ID in both.
pub proof fn lemma_ids_order_independent(a: Seq<Interface>, b: Seq<Interface>)
    requires
        all_sorted(a),
        all_sorted(b),
        forall|p: (Seq<char>, Seq<char>)| flat_pairs(a).contains(p) <==> flat_pairs(b).contains(p),
    ensures
        flat_pairs(a) == flat_pairs(b),
        forall|ta: Seq<FunctionId>, tb: Seq<FunctionId>, k: int|
            is_id_table(ta, a) && is_id_table(tb, b) && 0 <= k < ta.len() ==> tb.len() == ta.len()
                && (#[trigger] ta[k]).interface@ == (#[trigger] tb[k]).interface@ && ta[k].function@
                == tb[k].function@ && ta[k].id == tb[k].id,
{
    lemma_flat_increasing(a);
    lemma_flat_increasing(b);
    lemma_increasing_same_elements(flat_pairs(a), flat_pairs(b));
}

} // verus!
