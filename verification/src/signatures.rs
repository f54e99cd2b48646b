//! Ordering of a commit's signatures by the voting power of their signers.

use vstd::prelude::*;
use crate::types::{CommitSig, SignedHeader, Validator, ValidatorSet, lookup_power};

verus! {

/// The voting power behind each slot of `sigs`, by position.
pub open spec fn signature_powers(sigs: Seq<CommitSig>, vals: Seq<Validator>) -> Seq<u64> {
    Seq::new(sigs.len(), |i: int| sigs[i].signer_power(vals))
}

/// Position `x` comes before position `y`: its key is larger, or the keys
/// are equal and `x` is the earlier position.
pub open spec fn precedes(keys: Seq<u64>, x: usize, y: usize) -> bool {
    keys[x as int] > keys[y as int] || (keys[x as int] == keys[y as int] && x < y)
}

/// The position `x` occurs in `order`.
pub open spec fn occurs(order: Seq<usize>, x: int) -> bool {
    exists|k: int| 0 <= k < order.len() && #[trigger] order[k] == x
}

/// Every position below `n` occurs in `order`.
pub open spec fn covers(order: Seq<usize>, n: int) -> bool {
    forall|x: int| 0 <= x < n ==> #[trigger] occurs(order, x)
}

/// `order` arranges the positions of `keys` by descending key, positions
/// with equal keys in the order they had before: it lists every position, each
/// once.
pub open spec fn is_stable_descending_order(order: Seq<usize>, keys: Seq<u64>) -> bool {
    &&& order.len() == keys.len()
    &&& covers(order, keys.len() as int)
    &&& forall|k: int| 0 <= k < order.len() ==> (#[trigger] order[k]) < keys.len()
    &&& forall|a: int, b: int|
        0 <= a < b < order.len() ==> precedes(keys, #[trigger] order[a], #[trigger] order[b])
}

/// The signers' powers in `vals` do not increase along `sigs`.
pub open spec fn is_power_sorted(sigs: Seq<CommitSig>, vals: Seq<Validator>) -> bool {
    forall|i: int, j: int|
        0 <= i < j < sigs.len() ==> (#[trigger] sigs[i]).signer_power(vals) >= (#[trigger] sigs[j]).signer_power(
            vals,
        )
}

/// `after` holds, at each position `k`, the signature that `before` holds
/// at position `order[k]`.
pub open spec fn arranges(order: Seq<usize>, before: Seq<CommitSig>, after: Seq<CommitSig>) -> bool {
    &&& after.len() == before.len()
    &&& order.len() == before.len()
    &&& forall|k: int| 0 <= k < after.len() ==> (#[trigger] after[k]) == before[order[k] as int]
}

/// `after` is `before` sorted by descending signer power in `vals`, slots
/// of equal power in the order they had before.
pub open spec fn is_sorted_by_power(
    before: Seq<CommitSig>,
    after: Seq<CommitSig>,
    vals: Seq<Validator>,
) -> bool {
    exists|order: Seq<usize>| #[trigger]
        is_stable_descending_order(order, signature_powers(before, vals)) && arranges(
            order,
            before,
            after,
        )
}

/// After sorting, of any two signatures the earlier one's signer holds at
/// least the power of the later one's.
pub proof fn lemma_sorted_signatures_descend(
    before: Seq<CommitSig>,
    after: Seq<CommitSig>,
    vals: Seq<Validator>,
)
    requires
        is_sorted_by_power(before, after, vals),
    ensures
        is_power_sorted(after, vals),
{
    let keys = signature_powers(before, vals);
    let order = choose|order: Seq<usize>| #[trigger]
        is_stable_descending_order(order, keys) && arranges(order, before, after);
    assert forall|i: int, j: int| 0 <= i < j < after.len() implies (#[trigger] after[i]).signer_power(
        vals,
    ) >= (#[trigger] after[j]).signer_power(vals) by {
        assert(precedes(keys, order[i], order[j]));
    }
}

/// Two stable descending orders of the same keys agree on their first `k`
/// positions.
proof fn lemma_orders_agree(o1: Seq<usize>, o2: Seq<usize>, keys: Seq<u64>, k: int)
    requires
        is_stable_descending_order(o1, keys),
        is_stable_descending_order(o2, keys),
        0 <= k <= keys.len(),
    ensures
        forall|j: int| 0 <= j < k ==> o1[j] == o2[j],
    decreases k,
{
    if k > 0 {
        lemma_orders_agree(o1, o2, keys, k - 1);
        let x = o1[k - 1];
        let y = o2[k - 1];
        if x != y {
            assert(occurs(o2, x as int));
            let m = choose|m: int| 0 <= m < o2.len() && #[trigger] o2[m] == x;
            assert(occurs(o1, y as int));
            let l = choose|l: int| 0 <= l < o1.len() && #[trigger] o1[l] == y;
            if m < k - 1 {
                assert(o1[m] == o2[m]);
                assert(precedes(keys, o1[m], o1[k - 1]));
            } else {
                assert(precedes(keys, o2[k - 1], o2[m]));
            }
            if l < k - 1 {
                assert(o1[l] == o2[l]);
                assert(precedes(keys, o2[l], o2[k - 1]));
            } else {
                assert(precedes(keys, o1[k - 1], o1[l]));
            }
        }
    }
}

/// The keys have one stable descending order only.
pub proof fn lemma_stable_order_is_unique(o1: Seq<usize>, o2: Seq<usize>, keys: Seq<u64>)
    requires
        is_stable_descending_order(o1, keys),
        is_stable_descending_order(o2, keys),
    ensures
        o1 == o2,
{
    lemma_orders_agree(o1, o2, keys, keys.len() as int);
    assert(o1 =~= o2);
}

/// Sorting by power has one result only.
pub proof fn lemma_sorting_is_determined(
    before: Seq<CommitSig>,
    after_1: Seq<CommitSig>,
    after_2: Seq<CommitSig>,
    vals: Seq<Validator>,
)
    requires
        is_sorted_by_power(before, after_1, vals),
        is_sorted_by_power(before, after_2, vals),
    ensures
        after_1 == after_2,
{
    let keys = signature_powers(before, vals);
    let o1 = choose|order: Seq<usize>| #[trigger]
        is_stable_descending_order(order, keys) && arranges(order, before, after_1);
    let o2 = choose|order: Seq<usize>| #[trigger]
        is_stable_descending_order(order, keys) && arranges(order, before, after_2);
    lemma_stable_order_is_unique(o1, o2, keys);
    assert(after_1 =~= after_2);
}

/// The arrangement of the positions of `keys` by descending key, stable
/// for equal keys.
pub fn stable_descending_order(keys: &Vec<u64>) -> (order: Vec<usize>)
    ensures
        is_stable_descending_order(order@, keys@),
{
    let n = keys.len();
    let mut order: Vec<usize> = Vec::new();
    let mut i: usize = 0;
    while i < n
        invariant
            i <= n,
            n == keys.len(),
            order.len() == i,
            covers(order@, i as int),
            forall|k: int| 0 <= k < i ==> (#[trigger] order@[k]) < i,
            forall|a: int, b: int|
                0 <= a < b < i ==> precedes(keys@, #[trigger] order@[a], #[trigger] order@[b]),
        decreases n - i,
    {
        let key = keys[i];
        let mut p: usize = i;
        while p > 0 && keys[order[p - 1]] < key
            invariant
                p <= i,
                i < n,
                n == keys.len(),
                order.len() == i,
                key == keys@[i as int],
                forall|k: int| 0 <= k < i ==> (#[trigger] order@[k]) < i,
                forall|k: int| p <= k < i ==> keys@[(#[trigger] order@[k]) as int] < key,
            decreases p,
        {
            p -= 1;
        }
        let ghost before = order@;
        order.insert(p, i);
        proof {
            assert forall|x: int| 0 <= x < i + 1 implies #[trigger] occurs(order@, x) by {
                if x == i {
                    assert(order@[p as int] == x);
                } else {
                    assert(occurs(before, x));
                    let k = choose|k: int| 0 <= k < before.len() && #[trigger] before[k] == x;
                    if k < p {
                        assert(order@[k] == x);
                    } else {
                        assert(order@[k + 1] == x);
                    }
                }
            }
            assert forall|k: int| 0 <= k < i + 1 implies (#[trigger] order@[k]) < i + 1 by {
                if k < p {
                    assert(order@[k] == before[k]);
                } else if k > p {
                    assert(order@[k] == before[k - 1]);
                }
            }
            assert forall|a: int, b: int| 0 <= a < b < i + 1 implies precedes(
                keys@,
                #[trigger] order@[a],
                #[trigger] order@[b],
            ) by {
                if b < p {
                    assert(order@[a] == before[a] && order@[b] == before[b]);
                } else if b == p {
                    assert(order@[a] == before[a]);
                    assert(order@[b] == i);
                    if a < p - 1 {
                        assert(precedes(keys@, before[a], before[p - 1]));
                    }
                } else {
                    assert(order@[b] == before[b - 1]);
                    if a < p {
                        assert(order@[a] == before[a]);
                    } else if a == p {
                        assert(order@[a] == i);
                    } else {
                        assert(order@[a] == before[a - 1]);
                    }
                }
            }
        }
        i += 1;
    }
    order
}

/// Sorts the commit's signatures by the voting power that their signers
/// hold in `validators_set`, largest first; an empty slot and a signer that
/// the set does not list count as power 0, and slots of equal power keep
/// their order. Returns, for each new position, the position that its
/// signature had before.
pub fn sort_signatures_by_validators_power_desc(
    signed_header: &mut SignedHeader,
    validators_set: &ValidatorSet,
) -> (order: Vec<usize>)
    ensures
        final(signed_header).header == old(signed_header).header,
        is_stable_descending_order(
            order@,
            signature_powers(old(signed_header).commit.signatures@, validators_set.validators@),
        ),
        arranges(order@, old(signed_header).commit.signatures@, final(signed_header).commit.signatures@),
        is_sorted_by_power(
            old(signed_header).commit.signatures@,
            final(signed_header).commit.signatures@,
            validators_set.validators@,
        ),
        is_power_sorted(final(signed_header).commit.signatures@, validators_set.validators@),
{
    let n = signed_header.commit.signatures.len();
    let ghost sigs = signed_header.commit.signatures@;
    let ghost vals = validators_set.validators@;
    let mut powers: Vec<u64> = Vec::new();
    let mut i: usize = 0;
    while i < n
        invariant
            i <= n,
            n == sigs.len(),
            sigs == signed_header.commit.signatures@,
            vals == validators_set.validators@,
            powers.len() == i,
            forall|k: int| 0 <= k < i ==> (#[trigger] powers@[k]) == sigs[k].signer_power(vals),
        decreases n - i,
    {
        let power = match signed_header.commit.signatures[i].validator_address() {
            Some(addr) => lookup_power(&validators_set.validators, &addr),
            None => 0,
        };
        powers.push(power);
        i += 1;
    }
    assert(powers@ =~= signature_powers(sigs, vals));
    let order = stable_descending_order(&powers);
    let mut sorted: Vec<CommitSig> = Vec::new();
    let mut k: usize = 0;
    while k < n
        invariant
            k <= n,
            n == sigs.len(),
            n == order.len(),
            sigs == signed_header.commit.signatures@,
            sorted.len() == k,
            is_stable_descending_order(order@, powers@),
            powers@.len() == n,
            forall|m: int| 0 <= m < k ==> (#[trigger] sorted@[m]) == sigs[order@[m] as int],
        decreases n - k,
    {
        sorted.push(signed_header.commit.signatures[order[k]]);
        k += 1;
    }
    signed_header.commit.signatures = sorted;
    proof {
        assert(arranges(order@, sigs, signed_header.commit.signatures@));
        assert(is_sorted_by_power(sigs, signed_header.commit.signatures@, vals));
        lemma_sorted_signatures_descend(sigs, signed_header.commit.signatures@, vals);
    }
    order
}

} // verus!
