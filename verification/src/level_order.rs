use vstd::prelude::*;
use vstd::string::StringSliceAdditionalSpecFns;
use vstd::utf8::{decode_utf8, encode_utf8, encode_utf8_decode_utf8};

verus! {

/// Byte-wise lexicographic order, the order of `str` and `String`.
pub open spec fn bytes_le(a: Seq<u8>, b: Seq<u8>) -> bool
    decreases a.len(),
{
    if a.len() == 0 {
        true
    } else if b.len() == 0 {
        false
    } else if a[0] != b[0] {
        a[0] < b[0]
    } else {
        bytes_le(a.drop_first(), b.drop_first())
    }
}

/// The bytes by which a level's id is ordered.
pub open spec fn id_key(id: String) -> Seq<u8> {
    encode_utf8(id@)
}

/// `order` lists every index below `n` exactly once.
pub open spec fn is_index_permutation(order: Seq<usize>, n: int) -> bool {
    &&& order.len() == n
    &&& forall|k: int| 0 <= k < n ==> (#[trigger] order[k] as int) < n
    &&& forall|a: int, b: int| 0 <= a < b < n ==> order[a] != order[b]
}

/// `order` lists the ids sorted by their bytes, equal ids in their
/// original order (a stable sort).
pub open spec fn is_stable_id_order(ids: Seq<String>, order: Seq<usize>) -> bool {
    &&& forall|a: int, b: int|
        0 <= a < b < order.len() ==> bytes_le(
            id_key(ids[order[a] as int]),
            id_key(ids[order[b] as int]),
        )
    &&& forall|a: int, b: int|
        0 <= a < b < order.len() && id_key(ids[order[a] as int]) == id_key(ids[order[b] as int])
            ==> order[a] < order[b]
}

proof fn lemma_bytes_le_total(a: Seq<u8>, b: Seq<u8>)
    ensures
        bytes_le(a, b) || bytes_le(b, a),
    decreases a.len(),
{
    if a.len() > 0 && b.len() > 0 && a[0] == b[0] {
        lemma_bytes_le_total(a.drop_first(), b.drop_first());
    }
}

proof fn lemma_bytes_le_transitive(a: Seq<u8>, b: Seq<u8>, c: Seq<u8>)
    requires
        bytes_le(a, b),
        bytes_le(b, c),
    ensures
        bytes_le(a, c),
    decreases a.len(),
{
    if a.len() > 0 && b.len() > 0 && c.len() > 0 && a[0] == b[0] && b[0] == c[0] {
        lemma_bytes_le_transitive(a.drop_first(), b.drop_first(), c.drop_first());
    }
}

/// The key of an id is the whole id: decoding it gives the id back, so two
/// ids share a key only when they are the same id.
pub proof fn law_id_key_is_the_whole_id(a: String, b: String)
    ensures
        decode_utf8(id_key(a)) == a@,
        id_key(a) == id_key(b) ==> a@ == b@,
{
    encode_utf8_decode_utf8(a@);
    encode_utf8_decode_utf8(b@);
}

/// The order of keys is the lexicographic order of bytes: `a` sorts before or
/// together with `b` exactly when `a` is a prefix of `b`, or at the first
/// byte where they differ `a` has the smaller one.
pub proof fn law_bytes_le_is_lexicographic(a: Seq<u8>, b: Seq<u8>)
    ensures
        bytes_le(a, b) == ((a.len() <= b.len() && a == b.take(a.len() as int)) || exists|i: int|
            0 <= i < a.len() && i < b.len() && a.take(i) == b.take(i) && #[trigger] a[i] < b[i]),
    decreases a.len(),
{
    let lex = (a.len() <= b.len() && a == b.take(a.len() as int)) || exists|i: int|
        0 <= i < a.len() && i < b.len() && a.take(i) == b.take(i) && #[trigger] a[i] < b[i];
    if a.len() == 0 {
        assert(a =~= b.take(0));
    } else if b.len() == 0 {
    } else if a[0] != b[0] {
        if a[0] < b[0] {
            assert(a.take(0) =~= b.take(0));
            assert(lex);
        } else {
            if a.len() <= b.len() && a == b.take(a.len() as int) {
                assert(a[0] == b.take(a.len() as int)[0]);
            }
            if exists|i: int| 0 <= i < a.len() && i < b.len() && a.take(i) == b.take(i) && #[trigger] a[i] < b[i] {
                let i = choose|i: int| 0 <= i < a.len() && i < b.len() && a.take(i) == b.take(i) && #[trigger] a[i] < b[i];
                if i > 0 {
                    assert(a.take(i)[0] == b.take(i)[0]);
                }
            }
            assert(!lex);
        }
    } else {
        let a1 = a.drop_first();
        let b1 = b.drop_first();
        law_bytes_le_is_lexicographic(a1, b1);
        let lex1 = (a1.len() <= b1.len() && a1 == b1.take(a1.len() as int)) || exists|i: int|
            0 <= i < a1.len() && i < b1.len() && a1.take(i) == b1.take(i) && #[trigger] a1[i] < b1[i];
        if lex1 {
            if a1.len() <= b1.len() && a1 == b1.take(a1.len() as int) {
                assert forall|k: int| 0 <= k < a.len() implies a[k] == b.take(a.len() as int)[k] by {
                    if k > 0 {
                        assert(a[k] == a1[k - 1]);
                        assert(a1[k - 1] == b1.take(a1.len() as int)[k - 1]);
                    }
                }
                assert(a =~= b.take(a.len() as int));
            } else {
                let i = choose|i: int| 0 <= i < a1.len() && i < b1.len() && a1.take(i) == b1.take(i) && #[trigger] a1[i] < b1[i];
                assert forall|k: int| 0 <= k < i + 1 implies #[trigger] a.take(i + 1)[k] == b.take(i + 1)[k] by {
                    if k > 0 {
                        assert(a[k] == a1[k - 1]);
                        assert(b[k] == b1[k - 1]);
                        assert(a1.take(i)[k - 1] == b1.take(i)[k - 1]);
                    }
                }
                assert(a.take(i + 1) =~= b.take(i + 1));
                assert(a[i + 1] < b[i + 1]);
            }
            assert(lex);
        }
        if lex {
            if a.len() <= b.len() && a == b.take(a.len() as int) {
                assert(a1 =~= b1.take(a1.len() as int));
            } else {
                let i = choose|i: int| 0 <= i < a.len() && i < b.len() && a.take(i) == b.take(i) && #[trigger] a[i] < b[i];
                assert(i > 0);
                assert forall|k: int| 0 <= k < i - 1 implies #[trigger] a1.take(i - 1)[k] == b1.take(i - 1)[k] by {
                    assert(a.take(i)[k + 1] == b.take(i)[k + 1]);
                }
                assert(a1.take(i - 1) =~= b1.take(i - 1));
                assert(a1[i - 1] < b1[i - 1]);
            }
            assert(lex1);
        }
    }
}

/// In an order that is a stable sort of the ids, a level whose id sorts
/// strictly before another's comes first, and of two levels with the same
/// id the one registered first comes first.
pub proof fn law_sorted_levels_come_in_id_order(
    ids: Seq<String>,
    order: Seq<usize>,
    k1: int,
    k2: int,
)
    requires
        is_index_permutation(order, ids.len() as int),
        is_stable_id_order(ids, order),
        0 <= k1 < order.len(),
        0 <= k2 < order.len(),
        k1 != k2,
    ensures
        !bytes_le(id_key(ids[order[k2] as int]), id_key(ids[order[k1] as int])) ==> k1 < k2,
        id_key(ids[order[k1] as int]) == id_key(ids[order[k2] as int]) && order[k1] < order[k2] ==> k1
            < k2,
{
}

/// Compare two byte strings in lexicographic order.
fn bytes_le_exec(a: &[u8], b: &[u8]) -> (le: bool)
    ensures
        le == bytes_le(a@, b@),
{
    let mut i: usize = 0;
    assert(a@.subrange(0, a@.len() as int) =~= a@);
    assert(b@.subrange(0, b@.len() as int) =~= b@);
    while i < a.len()
        invariant
            i <= a.len(),
            i <= b.len(),
            a@.subrange(0, i as int) == b@.subrange(0, i as int),
            bytes_le(a@, b@) == bytes_le(a@.subrange(i as int, a@.len() as int), b@.subrange(
                i as int,
                b@.len() as int,
            )),
        decreases a.len() - i,
    {
        if i >= b.len() {
            return false;
        }
        if a[i] != b[i] {
            return a[i] < b[i];
        }
        let ghost sa = a@.subrange(i as int, a@.len() as int);
        let ghost sb = b@.subrange(i as int, b@.len() as int);
        assert(sa.drop_first() =~= a@.subrange(i + 1, a@.len() as int));
        assert(sb.drop_first() =~= b@.subrange(i + 1, b@.len() as int));
        assert(a@.subrange(0, i + 1) =~= a@.subrange(0, i as int).push(a@[i as int]));
        assert(b@.subrange(0, i + 1) =~= b@.subrange(0, i as int).push(b@[i as int]));
        i = i + 1;
    }
    true
}

/// Whether level id `a` sorts before or together with level id `b`.
fn id_le(a: &String, b: &String) -> (le: bool)
    ensures
        le == bytes_le(id_key(*a), id_key(*b)),
{
    bytes_le_exec(a.as_str().as_bytes(), b.as_str().as_bytes())
}

/// The order in which to list the levels: their ids sorted byte-wise, levels
/// with equal ids kept in their original order. The result lists every
/// level index exactly once.
pub fn level_order_by_id(ids: &Vec<String>) -> (order: Vec<usize>)
    ensures
        is_index_permutation(order@, ids.len() as int),
        is_stable_id_order(ids@, order@),
{
    let mut order: Vec<usize> = Vec::new();
    let mut i: usize = 0;
    while i < ids.len()
        invariant
            i <= ids.len(),
            is_index_permutation(order@, i as int),
            is_stable_id_order(ids@, order@),
        decreases ids.len() - i,
    {
        let mut p: usize = 0;
        while p < order.len()
            invariant
                i < ids.len(),
                is_index_permutation(order@, i as int),
                p <= order.len(),
                forall|a: int|
                    0 <= a < p ==> bytes_le(id_key(ids@[order@[a] as int]), id_key(ids@[i as int])),
            ensures
                p <= order.len(),
                forall|a: int|
                    0 <= a < p ==> bytes_le(id_key(ids@[order@[a] as int]), id_key(ids@[i as int])),
                p == order.len() || !bytes_le(id_key(ids@[order@[p as int] as int]), id_key(ids@[i as int])),
            decreases order.len() - p,
        {
            if !id_le(&ids[order[p]], &ids[i]) {
                break;
            }
            p = p + 1;
        }
        let ghost old_order = order@;
        let ghost ki = id_key(ids@[i as int]);
        order.insert(p, i);
        proof {
            assert(order@ == old_order.insert(p as int, i));
            assert forall|a: int, b: int| 0 <= a < b < order@.len() implies bytes_le(
                id_key(ids@[order@[a] as int]),
                id_key(ids@[order@[b] as int]),
            ) by {
                if a < p && b < p {
                } else if a < p && b == p {
                } else if a < p && b > p {
                    assert(order@[b] == old_order[b - 1]);
                    if p < old_order.len() {
                        lemma_bytes_le_total(id_key(ids@[old_order[p as int] as int]), ki);
                        if b - 1 > p {
                            assert(bytes_le(id_key(ids@[old_order[p as int] as int]), id_key(ids@[old_order[b - 1] as int])));
                        } else {
                            lemma_bytes_le_total(
                                id_key(ids@[old_order[p as int] as int]),
                                id_key(ids@[old_order[p as int] as int]),
                            );
                        }
                        lemma_bytes_le_transitive(
                            id_key(ids@[old_order[a] as int]),
                            ki,
                            id_key(ids@[old_order[p as int] as int]),
                        );
                        lemma_bytes_le_transitive(
                            id_key(ids@[old_order[a] as int]),
                            id_key(ids@[old_order[p as int] as int]),
                            id_key(ids@[old_order[b - 1] as int]),
                        );
                    }
                } else if a == p {
                    assert(order@[b] == old_order[b - 1]);
                    lemma_bytes_le_total(id_key(ids@[old_order[p as int] as int]), ki);
                    if b - 1 > p {
                        assert(bytes_le(id_key(ids@[old_order[p as int] as int]), id_key(ids@[old_order[b - 1] as int])));
                        lemma_bytes_le_transitive(
                            ki,
                            id_key(ids@[old_order[p as int] as int]),
                            id_key(ids@[old_order[b - 1] as int]),
                        );
                    }
                } else {
                    assert(order@[a] == old_order[a - 1]);
                    assert(order@[b] == old_order[b - 1]);
                }
            }
            assert forall|a: int, b: int|
                0 <= a < b < order@.len() && id_key(ids@[order@[a] as int]) == id_key(
                    ids@[order@[b] as int],
                ) implies order@[a] < order@[b] by {
                if a < p && b == p {
                    assert((old_order[a] as int) < i);
                } else if a < p && b > p {
                    assert(order@[b] == old_order[b - 1]);
                } else if a == p {
                    assert(order@[b] == old_order[b - 1]);
                    let kp = id_key(ids@[old_order[p as int] as int]);
                    let kb = id_key(ids@[old_order[b - 1] as int]);
                    lemma_bytes_le_total(kp, ki);
                    if b - 1 > p {
                        assert(bytes_le(kp, kb));
                    }
                    assert(bytes_le(kp, ki));
                    assert(false);
                } else if a > p {
                    assert(order@[a] == old_order[a - 1]);
                    assert(order@[b] == old_order[b - 1]);
                }
            }
            assert forall|k: int| 0 <= k < i + 1 implies (#[trigger] order@[k] as int) < i + 1 by {
                if k < p {
                } else if k > p {
                    assert(order@[k] == old_order[k - 1]);
                }
            }
            assert forall|a: int, b: int| 0 <= a < b < i + 1 implies order@[a] != order@[b] by {
                if a < p && b > p {
                    assert(order@[b] == old_order[b - 1]);
                } else if a == p {
                    assert(order@[b] == old_order[b - 1]);
                } else if a > p {
                    assert(order@[a] == old_order[a - 1]);
                    assert(order@[b] == old_order[b - 1]);
                } else if b == p {
                    assert((old_order[a] as int) < i);
                }
            }
        }
        i = i + 1;
    }
    order
}

} // verus!
