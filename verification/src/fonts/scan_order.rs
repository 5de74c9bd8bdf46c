//! The order in which the files of one font directory are visited: by file
//! name, byte by byte, as paths that share a directory compare.

use vstd::prelude::*;

verus! {

/// `a` comes no later than `b` in byte-wise lexicographic order (a prefix
/// comes first).
pub open spec fn name_before(a: Seq<u8>, b: Seq<u8>) -> bool
    decreases a.len(),
{
    if a.len() == 0 {
        true
    } else if b.len() == 0 {
        false
    } else if a[0] != b[0] {
        a[0] < b[0]
    } else {
        name_before(a.drop_first(), b.drop_first())
    }
}

/// Of two names, one comes no later than the other.
pub proof fn lemma_name_order_total(a: Seq<u8>, b: Seq<u8>)
    ensures
        name_before(a, b) || name_before(b, a),
    decreases a.len(),
{
    if a.len() > 0 && b.len() > 0 && a[0] == b[0] {
        lemma_name_order_total(a.drop_first(), b.drop_first());
    }
}

/// The order is transitive.
pub proof fn lemma_name_order_transitive(a: Seq<u8>, b: Seq<u8>, c: Seq<u8>)
    requires
        name_before(a, b),
        name_before(b, c),
    ensures
        name_before(a, c),
    decreases a.len(),
{
    if a.len() > 0 && b.len() > 0 && c.len() > 0 && a[0] == b[0] && b[0] == c[0] {
        lemma_name_order_transitive(a.drop_first(), b.drop_first(), c.drop_first());
    }
}

/// The order is antisymmetric: two names each before the other are equal.
pub proof fn lemma_name_order_antisymmetric(a: Seq<u8>, b: Seq<u8>)
    requires
        name_before(a, b),
        name_before(b, a),
    ensures
        a == b,
    decreases a.len(),
{
    if a.len() > 0 {
        lemma_name_order_antisymmetric(a.drop_first(), b.drop_first());
        assert(a =~= seq![a[0]] + a.drop_first());
        assert(b =~= seq![b[0]] + b.drop_first());
    }
}

proof fn lemma_name_before_step(a: Seq<u8>, b: Seq<u8>, i: int)
    requires
        0 <= i < a.len(),
        i < b.len(),
        a[i] == b[i],
    ensures
        name_before(a.skip(i), b.skip(i)) == name_before(a.skip(i + 1), b.skip(i + 1)),
{
    assert(a.skip(i).drop_first() =~= a.skip(i + 1));
    assert(b.skip(i).drop_first() =~= b.skip(i + 1));
}

/// Whether name `a` comes no later than name `b`.
pub fn name_le(a: &[u8], b: &[u8]) -> (le: bool)
    ensures
        le == name_before(a@, b@),
{
    let mut i: usize = 0;
    assert(a@.skip(0) =~= a@);
    assert(b@.skip(0) =~= b@);
    while i < a.len() && i < b.len()
        invariant
            i <= a.len(),
            i <= b.len(),
            name_before(a@, b@) == name_before(a@.skip(i as int), b@.skip(i as int)),
        decreases a.len() - i,
    {
        if a[i] != b[i] {
            return a[i] < b[i];
        }
        proof {
            lemma_name_before_step(a@, b@, i as int);
        }
        i = i + 1;
    }
    i == a.len()
}

/// `order` lists every index below `n` exactly once.
pub open spec fn is_index_permutation(order: Seq<usize>, n: nat) -> bool {
    &&& order.len() == n
    &&& forall|i: int| 0 <= i < order.len() ==> order[i] < n
    &&& forall|i: int, j: int| 0 <= i < j < order.len() ==> order[i] != order[j]
}

/// The names, taken in `order`, come in byte-wise order.
pub open spec fn names_in_order(names: Seq<Vec<u8>>, order: Seq<usize>) -> bool {
    forall|i: int, j: int|
        0 <= i < j < order.len() ==> name_before(
            #[trigger] names[order[i] as int]@,
            #[trigger] names[order[j] as int]@,
        )
}

/// The order in which the files of one directory are visited: a permutation
/// of the indices of `names` under which the names ascend byte by byte.
/// Names that compare equal keep their relative order.
pub fn directory_order(names: &Vec<Vec<u8>>) -> (order: Vec<usize>)
    ensures
        is_index_permutation(order@, names.len() as nat),
        names_in_order(names@, order@),
        forall|i: int, j: int|
            0 <= i < j < order.len() && names@[order[i] as int]@ == names@[order[j] as int]@
                ==> order[i] < order[j],
{
    let mut order: Vec<usize> = Vec::new();
    let mut k: usize = 0;
    while k < names.len()
        invariant
            k <= names.len(),
            is_index_permutation(order@, k as nat),
            names_in_order(names@, order@),
            forall|i: int, j: int|
                0 <= i < j < order.len() && names@[order[i] as int]@ == names@[order[j] as int]@
                    ==> order[i] < order[j],
        decreases names.len() - k,
    {
        let mut p: usize = 0;
        while p < order.len() && name_le(names[order[p]].as_slice(), names[k].as_slice())
            invariant
                p <= order.len(),
                k < names.len(),
                is_index_permutation(order@, k as nat),
                forall|i: int| 0 <= i < p ==> name_before(
                    #[trigger] names@[order[i] as int]@,
                    names@[k as int]@,
                ),
            decreases order.len() - p,
        {
            p = p + 1;
        }
        let ghost old_order = order@;
        proof {
            if p < order.len() {
                let q = old_order[p as int];
                assert(!name_before(names@[q as int]@, names@[k as int]@));
                lemma_name_order_total(names@[q as int]@, names@[k as int]@);
                assert forall|j: int| p <= j < old_order.len() implies name_before(
                    names@[k as int]@,
                    #[trigger] names@[old_order[j] as int]@,
                ) by {
                    if j > p {
                        assert(name_before(names@[q as int]@, names@[old_order[j] as int]@));
                        lemma_name_order_transitive(
                            names@[k as int]@,
                            names@[q as int]@,
                            names@[old_order[j] as int]@,
                        );
                    }
                }
                assert forall|j: int| p <= j < old_order.len() implies names@[k as int]@
                    != #[trigger] names@[old_order[j] as int]@ by {
                    if names@[k as int]@ == names@[old_order[j] as int]@ {
                        lemma_name_order_total(names@[k as int]@, names@[k as int]@);
                        if j > p {
                            assert(name_before(names@[q as int]@, names@[old_order[j] as int]@));
                        }
                    }
                }
            }
        }
        order.insert(p, k);
        proof {
            assert(order@ == old_order.insert(p as int, k));
            assert forall|i: int, j: int| 0 <= i < j < order.len() implies name_before(
                #[trigger] names@[order[i] as int]@,
                #[trigger] names@[order[j] as int]@,
            ) by {
                if i < p && j == p {
                } else if i < p && j > p {
                    assert(order[j] == old_order[j - 1]);
                } else if i == p {
                    assert(order[j] == old_order[j - 1]);
                } else if i > p {
                    assert(order[i] == old_order[i - 1]);
                    assert(order[j] == old_order[j - 1]);
                } else {
                    assert(order[i] == old_order[i]);
                    assert(order[j] == old_order[j]);
                }
            }
            assert forall|i: int, j: int|
                0 <= i < j < order.len() && names@[order[i] as int]@
                    == names@[order[j] as int]@ implies order[i] < order[j] by {
                if i > p {
                    assert(order[i] == old_order[i - 1]);
                    assert(order[j] == old_order[j - 1]);
                } else if i == p {
                    assert(order[j] == old_order[j - 1]);
                } else if j > p {
                    assert(order[j] == old_order[j - 1]);
                }
            }
        }
        k = k + 1;
    }
    order
}

} // verus!
