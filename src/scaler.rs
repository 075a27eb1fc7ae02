//! Choosing which cluster nodes to remove when shrinking to a smaller tier.
//!
//! A tier is a number of worker nodes, and worker nodes are named
//! `worker-<n>`. The surplus workers leave, those with the highest number
//! first. A node whose name does not have that shape (the master) ranks below
//! every worker and so is never removed ahead of one. Among nodes of equal
//! rank, the one listed later leaves first.
use vstd::prelude::*;
use vstd::set_lib::*;
use vstd::string::*;
use vstd::utf8::encode_utf8;

verus! {

/// The bytes of `worker-`.
pub open spec fn worker_prefix() -> Seq<u8> {
    seq![119u8, 111u8, 114u8, 107u8, 101u8, 114u8, 45u8]
}

pub open spec fn is_digit_byte(b: u8) -> bool {
    48 <= b <= 57
}

pub open spec fn all_digit_bytes(b: Seq<u8>) -> bool {
    forall|i: int| 0 <= i < b.len() ==> is_digit_byte(#[trigger] b[i])
}

/// The number written by a sequence of decimal digit bytes.
pub open spec fn digits_value(b: Seq<u8>) -> nat
    decreases b.len(),
{
    if b.len() == 0 {
        0
    } else {
        digits_value(b.drop_last()) * 10 + (b.last() - 48) as nat
    }
}

/// The removal rank of a node whose name has UTF-8 bytes `b`: the number after
/// `worker-` where the rest of the name is a decimal number that fits an
/// `i32`, and -1 for any other name.
pub open spec fn rank_of_bytes(b: Seq<u8>) -> int {
    let suffix = b.skip(7);
    if b.len() > 7 && b.take(7) == worker_prefix() && all_digit_bytes(suffix) && digits_value(
        suffix,
    ) <= i32::MAX {
        digits_value(suffix) as int
    } else {
        -1
    }
}

/// The removal rank of a node name.
pub open spec fn rank_of(name: Seq<char>) -> int {
    rank_of_bytes(encode_utf8(name))
}

/// Node `i` leaves before node `j`: it has a higher rank, or the same rank
/// and a later place in the list.
pub open spec fn leaves_before(ranks: Seq<int>, i: int, j: int) -> bool {
    ranks[i] > ranks[j] || (ranks[i] == ranks[j] && i > j)
}

/// The number of worker nodes: those whose names have the `worker-<n>` shape.
pub open spec fn worker_total(ranks: Seq<int>) -> nat
    decreases ranks.len(),
{
    if ranks.len() == 0 {
        0
    } else {
        worker_total(ranks.drop_last()) + if ranks.last() >= 0 { 1nat } else { 0nat }
    }
}

/// How many nodes leave when the workers among nodes of ranks `ranks` shrink
/// to `target`: the surplus of workers, none when there is none.
pub open spec fn removal_count(ranks: Seq<int>, target: nat) -> nat {
    if worker_total(ranks) > target {
        (worker_total(ranks) - target) as nat
    } else {
        0
    }
}

/// The indices of the worker nodes.
pub open spec fn worker_set(ranks: Seq<int>) -> Set<int> {
    Set::new(|j: int| 0 <= j < ranks.len() && ranks[j] >= 0)
}

proof fn lemma_worker_set_len(ranks: Seq<int>)
    ensures
        worker_set(ranks).finite(),
        worker_set(ranks).len() == worker_total(ranks),
    decreases ranks.len(),
{
    if ranks.len() == 0 {
        assert(worker_set(ranks) =~= Set::<int>::empty());
    } else {
        let prev = ranks.drop_last();
        lemma_worker_set_len(prev);
        let last = ranks.len() - 1;
        if ranks.last() >= 0 {
            assert(worker_set(ranks) =~= worker_set(prev).insert(last));
            assert(!worker_set(prev).contains(last));
        } else {
            assert(worker_set(ranks) =~= worker_set(prev));
        }
    }
}

/// `order` lists, in the order they leave, the indices of the nodes that
/// leave when the workers among nodes of the given ranks shrink to `target`:
/// as many as the surplus of workers, each leaving before every later one and
/// before every node that stays.
pub open spec fn is_removal_order(ranks: Seq<int>, target: nat, order: Seq<int>) -> bool {
    &&& order.len() == removal_count(ranks, target)
    &&& forall|k: int| 0 <= k < order.len() ==> 0 <= #[trigger] order[k] < ranks.len()
    &&& forall|a: int, b: int|
        0 <= a < b < order.len() ==> leaves_before(ranks, #[trigger] order[a], #[trigger] order[b])
    &&& forall|j: int, k: int|
        0 <= j < ranks.len() && !order.contains(j) && 0 <= k < order.len() ==> #[trigger] leaves_before(ranks, order[k], j)
}

pub open spec fn ranks_of(names: Seq<String>) -> Seq<int> {
    names.map_values(|s: String| rank_of(s@))
}

proof fn lemma_digits_value_prefix(b: Seq<u8>, j: int, k: int)
    requires
        0 <= j <= k <= b.len(),
    ensures
        digits_value(b.take(j)) <= digits_value(b.take(k)),
    decreases k - j,
{
    if j < k {
        lemma_digits_value_prefix(b, j, k - 1);
        assert(b.take(k).drop_last() =~= b.take(k - 1));
    }
}

/// The removal rank of the node named `name`: see [`rank_of`].
pub fn node_rank(name: &str) -> (r: i32)
    ensures
        r as int == rank_of_bytes(name.spec_bytes()),
{
    let b = name.as_bytes();
    let ghost bs = b@;
    let n = b.len();
    if n <= 7 || b[0] != 119 || b[1] != 111 || b[2] != 114 || b[3] != 107 || b[4] != 101 || b[5]
        != 114 || b[6] != 45 {
        proof {
            if n > 7 {
                assert(bs.take(7) != worker_prefix()) by {
                    assert(bs.take(7)[0] == bs[0] && bs.take(7)[1] == bs[1] && bs.take(7)[2]
                        == bs[2] && bs.take(7)[3] == bs[3] && bs.take(7)[4] == bs[4]
                        && bs.take(7)[5] == bs[5] && bs.take(7)[6] == bs[6]);
                }
            }
        }
        return -1;
    }
    assert(bs.take(7) =~= worker_prefix());
    let ghost suffix = bs.skip(7);
    let mut acc: u64 = 0;
    let mut i: usize = 7;
    while i < n
        invariant
            b@ == bs,
            bs == name.spec_bytes(),
            n == bs.len(),
            suffix == bs.skip(7),
            7 <= i <= n,
            all_digit_bytes(suffix.take(i - 7)),
            acc == digits_value(suffix.take(i - 7)),
            acc <= i32::MAX,
        decreases n - i,
    {
        let d = b[i];
        if d < 48 || d > 57 {
            assert(!all_digit_bytes(suffix)) by {
                assert(suffix[i - 7] == d);
            }
            return -1;
        }
        let next: u64 = acc * 10 + (d - 48) as u64;
        assert(suffix.take(i + 1 - 7).drop_last() =~= suffix.take(i - 7));
        assert(digits_value(suffix.take(i + 1 - 7)) == next);
        if next > 2147483647 {
            proof {
                lemma_digits_value_prefix(suffix, i + 1 - 7, suffix.len() as int);
                assert(suffix.take(suffix.len() as int) =~= suffix);
            }
            return -1;
        }
        acc = next;
        i = i + 1;
    }
    assert(suffix.take(n - 7) =~= suffix);
    acc as i32
}

/// The indices of the nodes that leave when the workers among nodes of the
/// given ranks shrink to `target`, in the order they leave.
pub fn removal_order(ranks: &Vec<i32>, target: usize) -> (order: Vec<usize>)
    ensures
        is_removal_order(ranks@.map_values(|r: i32| r as int), target as nat, order@.map_values(|i: usize| i as int)),
        forall|k: int| 0 <= k < order@.len() ==> ranks@[#[trigger] order@[k] as int] >= 0,
{
    let ghost rk = ranks@.map_values(|r: i32| r as int);
    let n = ranks.len();
    let mut workers: usize = 0;
    let mut w: usize = 0;
    while w < n
        invariant
            n == ranks@.len(),
            rk == ranks@.map_values(|r: i32| r as int),
            w <= n,
            workers == worker_total(rk.take(w as int)),
            workers <= w,
        decreases n - w,
    {
        assert(rk.take(w + 1).drop_last() =~= rk.take(w as int));
        if ranks[w] >= 0 {
            workers = workers + 1;
        }
        w = w + 1;
    }
    assert(rk.take(n as int) =~= rk);
    let count: usize = if workers > target { workers - target } else { 0 };
    let mut taken: Vec<bool> = Vec::new();
    let mut t: usize = 0;
    while t < n
        invariant
            t <= n,
            taken@.len() == t,
            forall|j: int| 0 <= j < t ==> !(#[trigger] taken@[j]),
        decreases n - t,
    {
        taken.push(false);
        t = t + 1;
    }
    let mut order: Vec<usize> = Vec::new();
    let mut round: usize = 0;
    while round < count
        invariant
            n == ranks@.len(),
            rk == ranks@.map_values(|r: i32| r as int),
            count == removal_count(rk, target as nat),
            count <= n,
            round <= count,
            order@.len() == round,
            taken@.len() == n,
            forall|k: int| 0 <= k < round ==> (#[trigger] order@[k] as int) < n,
            forall|k: int| 0 <= k < round ==> rk[#[trigger] order@[k] as int] >= 0,
            forall|j: int|
                0 <= j < n ==> (#[trigger] taken@[j] <==> order@.map_values(|i: usize| i as int).contains(j)),
            forall|a: int, b: int|
                0 <= a < b < round ==> leaves_before(rk, #[trigger] order@[a] as int, #[trigger] order@[b] as int),
            forall|j: int, k: int|
                0 <= j < n && !taken@[j] && 0 <= k < round ==> #[trigger] leaves_before(rk, order@[k] as int, j),
        decreases count - round,
    {
        let ghost ord = order@.map_values(|i: usize| i as int);
        proof {
            // some node is still in place: `order` holds `round` < `n` of them
            assert(ord.to_set().subset_of(set_int_range(0, n as int))) by {
                assert forall|x: int| ord.to_set().contains(x) implies set_int_range(0, n as int).contains(x) by {
                    let k = choose|k: int| 0 <= k < ord.len() && ord[k] == x;
                    assert(order@[k] < n);
                }
            }
            ord.lemma_cardinality_of_set();
            lemma_int_range(0, n as int);
            if forall|j: int| 0 <= j < n ==> #[trigger] taken@[j] {
                assert(set_int_range(0, n as int).subset_of(ord.to_set())) by {
                    assert forall|x: int| set_int_range(0, n as int).contains(x) implies ord.to_set().contains(x) by {
                        assert(taken@[x]);
                    }
                }
                lemma_len_subset(set_int_range(0, n as int), ord.to_set());
                assert(false);
            }
        }
        let ghost witness: int;
        proof {
            // some worker is still in place: the `round` < `count` taken are all workers
            lemma_worker_set_len(rk);
            if forall|x: int| 0 <= x < n && rk[x] >= 0 ==> #[trigger] taken@[x] {
                assert(worker_set(rk).subset_of(ord.to_set())) by {
                    assert forall|x: int| worker_set(rk).contains(x) implies ord.to_set().contains(x) by {
                        assert(taken@[x]);
                    }
                }
                lemma_len_subset(worker_set(rk), ord.to_set());
                assert(false);
            }
            witness = choose|x: int| 0 <= x < n && rk[x] >= 0 && !taken@[x];
        }
        let mut best: usize = n;
        let mut j: usize = 0;
        while j < n
            invariant
                n == ranks@.len(),
                rk == ranks@.map_values(|r: i32| r as int),
                taken@.len() == n,
                j <= n,
                best == n || (best < j && !taken@[best as int]),
                best == n ==> forall|x: int| 0 <= x < j ==> #[trigger] taken@[x],
                best < n ==> forall|x: int|
                    0 <= x < j && !taken@[x] && x != best ==> #[trigger] leaves_before(rk, best as int, x),
            decreases n - j,
        {
            if !taken[j] {
                if best == n || ranks[j] > ranks[best] || (ranks[j] == ranks[best] && j > best) {
                    proof {
                        if best < n {
                            assert(leaves_before(rk, j as int, best as int));
                            assert forall|x: int|
                                0 <= x < j && !taken@[x] && x != j implies #[trigger] leaves_before(rk, j as int, x) by {
                                if x != best {
                                    assert(leaves_before(rk, best as int, x));
                                }
                            }
                        }
                    }
                    best = j;
                }
            }
            j = j + 1;
        }
        assert(best < n);
        assert(rk[best as int] >= 0) by {
            if witness != best as int {
                assert(leaves_before(rk, best as int, witness));
            }
        }
        let ghost old_taken = taken@;
        taken.set(best, true);
        order.push(best);
        proof {
            let nord = order@.map_values(|i: usize| i as int);
            assert(nord =~= ord.push(best as int));
            assert forall|x: int| 0 <= x < n implies (#[trigger] taken@[x] <==> nord.contains(x)) by {
                if x == best as int {
                    assert(nord[round as int] == x);
                } else {
                    if nord.contains(x) {
                        let k = choose|k: int| 0 <= k < nord.len() && nord[k] == x;
                        assert(ord[k] == x);
                    }
                    if ord.contains(x) {
                        let k = choose|k: int| 0 <= k < ord.len() && ord[k] == x;
                        assert(nord[k] == x);
                    }
                }
            }
            assert forall|a: int, b: int|
                0 <= a < b < round + 1 implies leaves_before(rk, #[trigger] order@[a] as int, #[trigger] order@[b] as int) by {
                if b == round as int {
                    assert(!old_taken[best as int]);
                }
            }
            assert forall|x: int, k: int|
                0 <= x < n && !taken@[x] && 0 <= k < round + 1 implies #[trigger] leaves_before(rk, order@[k] as int, x) by {
                assert(!old_taken[x]);
            }
        }
        round = round + 1;
    }
    proof {
        let ord = order@.map_values(|i: usize| i as int);
        assert forall|x: int, k: int|
            0 <= x < rk.len() && !ord.contains(x) && 0 <= k < ord.len() implies #[trigger] leaves_before(rk, ord[k], x) by {
            assert(!taken@[x]);
            assert(ord[k] == order@[k] as int);
        }
        assert forall|a: int, b: int|
            0 <= a < b < ord.len() implies leaves_before(rk, #[trigger] ord[a], #[trigger] ord[b]) by {
            assert(ord[a] == order@[a] as int && ord[b] == order@[b] as int);
        }
    }
    order
}

/// The names of the nodes to remove, in removal order, when the cluster
/// whose nodes are `names` shrinks to `target` worker nodes. Nothing is
/// removed when it has `target` workers or fewer: it is never grown.
pub fn nodes_to_remove(names: &Vec<String>, target: usize) -> (removed: Vec<String>)
    ensures
        exists|order: Seq<int>|
            #![trigger is_removal_order(ranks_of(names@), target as nat, order)]
            is_removal_order(ranks_of(names@), target as nat, order) && removed@.len() == order.len()
                && forall|k: int| 0 <= k < order.len() ==> (#[trigger] removed@[k])@ == names@[order[k]]@,
        forall|k: int| 0 <= k < removed@.len() ==> rank_of((#[trigger] removed@[k])@) >= 0,
{
    let mut ranks: Vec<i32> = Vec::new();
    let mut i: usize = 0;
    while i < names.len()
        invariant
            i <= names@.len(),
            ranks@.len() == i,
            forall|k: int| 0 <= k < i ==> (#[trigger] ranks@[k]) as int == rank_of(names@[k]@),
        decreases names@.len() - i,
    {
        ranks.push(node_rank(names[i].as_str()));
        i = i + 1;
    }
    let order = removal_order(&ranks, target);
    let ghost ord = order@.map_values(|i: usize| i as int);
    assert forall|m: int| 0 <= m < order@.len() implies (#[trigger] order@[m] as int) < ranks@.len() by {
        assert(ord[m] == order@[m] as int);
    }
    assert(ranks@.map_values(|r: i32| r as int) =~= ranks_of(names@));
    let mut removed: Vec<String> = Vec::new();
    let mut k: usize = 0;
    while k < order.len()
        invariant
            ord == order@.map_values(|i: usize| i as int),
            is_removal_order(ranks_of(names@), target as nat, ord),
            k <= order@.len(),
            removed@.len() == k,
            forall|m: int| 0 <= m < k ==> (#[trigger] removed@[m])@ == names@[ord[m]]@,
            forall|m: int| 0 <= m < k ==> rank_of((#[trigger] removed@[m])@) >= 0,
            ranks@.len() == names@.len(),
            forall|m: int| 0 <= m < order@.len() ==> (#[trigger] order@[m] as int) < ranks@.len(),
            forall|m: int| 0 <= m < order@.len() ==> ranks@[#[trigger] order@[m] as int] >= 0,
            forall|m: int| 0 <= m < ranks@.len() ==> (#[trigger] ranks@[m]) as int == rank_of(names@[m]@),
        decreases order@.len() - k,
    {
        assert(ord[k as int] == order@[k as int] as int);
        assert(ranks@[order@[k as int] as int] >= 0);
        assert(rank_of(names@[order@[k as int] as int]@) >= 0);
        removed.push(names[order[k]].clone());
        k = k + 1;
    }
    removed
}

} // verus!
