//! The order in which patch groups are merged: the largest first.

use vstd::prelude::*;

use crate::types::{FileRefView, GroupInfo, GroupInfoView};

verus! {

/// The sum of the sizes of some files.
pub open spec fn size_sum(files: Seq<FileRefView>) -> nat
    decreases files.len(),
{
    if files.len() == 0 {
        0
    } else {
        size_sum(files.drop_last()) + files.last().size as nat
    }
}

/// How many bytes a group produces.
pub open spec fn group_bytes(group: GroupInfoView) -> nat {
    size_sum(group.dst_files)
}

/// Whether the group at `a` comes before the group at `b`: it is larger, or as large and listed
/// earlier.
pub open spec fn comes_before(groups: Seq<GroupInfoView>, a: usize, b: usize) -> bool {
    let x = group_bytes(groups[a as int]);
    let y = group_bytes(groups[b as int]);
    x > y || (x == y && a < b)
}

/// Whether `order` lists each of the first `n` groups once, each before those that it comes before.
pub open spec fn is_order(groups: Seq<GroupInfoView>, order: Seq<usize>, n: int) -> bool {
    &&& order.len() == n
    &&& forall|i: int| 0 <= i < order.len() ==> #[trigger] order[i] < n
    &&& forall|i: int, j: int|
        0 <= i < j < order.len() ==> #[trigger] comes_before(groups, order[i], order[j])
}

/// An order of all groups.
pub open spec fn is_merge_order(groups: Seq<GroupInfoView>, order: Seq<usize>) -> bool {
    is_order(groups, order, groups.len() as int)
}

/// Whether `order` lists each number below `n` once, each before those that it is `before`.
pub open spec fn is_listing(
    before: spec_fn(usize, usize) -> bool,
    order: Seq<usize>,
    n: int,
) -> bool {
    &&& order.len() == n
    &&& forall|i: int| 0 <= i < order.len() ==> #[trigger] order[i] < n
    &&& forall|i: int, j: int| 0 <= i < j < order.len() ==> #[trigger] before(order[i], order[j])
}

/// Whether of no two numbers each is before the other.
pub open spec fn is_one_way(before: spec_fn(usize, usize) -> bool) -> bool {
    forall|x: usize, y: usize| #[trigger] before(x, y) ==> !before(y, x)
}

/// A listing of the numbers below `n` lists each of them.
pub proof fn lemma_listing_is_complete(
    before: spec_fn(usize, usize) -> bool,
    order: Seq<usize>,
    n: int,
    g: usize,
)
    requires
        is_one_way(before),
        is_listing(before, order, n),
        0 <= g < n,
    ensures
        exists|i: int| 0 <= i < n && order[i] == g,
{
    let s = Seq::new(n as nat, |i: int| order[i] as int);
    assert(s.no_duplicates()) by {
        assert forall|i: int, j: int| 0 <= i < n && 0 <= j < n && i != j implies s[i] != s[j] by {
            if i < j {
                assert(before(order[i], order[j]));
            } else {
                assert(before(order[j], order[i]));
            }
        }
    }
    if forall|i: int| 0 <= i < n ==> order[i] != g {
        let all = vstd::set_lib::set_int_range(0, n).remove(g as int);
        vstd::set_lib::lemma_int_range(0, n);
        s.unique_seq_to_set();
        assert(s.to_set().subset_of(all)) by {
            assert forall|x: int| s.to_set().contains(x) implies all.contains(x) by {
                let i = choose|i: int| 0 <= i < s.len() && s[i] == x;
                assert(order[i] < n);
            }
        }
        vstd::set_lib::lemma_len_subset(s.to_set(), all);
        assert(false);
    }
}

proof fn lemma_same_start(
    before: spec_fn(usize, usize) -> bool,
    a: Seq<usize>,
    b: Seq<usize>,
    n: int,
    k: int,
)
    requires
        is_one_way(before),
        is_listing(before, a, n),
        is_listing(before, b, n),
        0 <= k <= n,
    ensures
        forall|i: int| 0 <= i < k ==> a[i] == b[i],
    decreases k,
{
    if k > 0 {
        lemma_same_start(before, a, b, n, k - 1);
        let i = k - 1;
        // a[i] stands in b, not before i, and likewise for b[i] in a
        lemma_listing_is_complete(before, b, n, a[i]);
        lemma_listing_is_complete(before, a, n, b[i]);
        let p = choose|p: int| 0 <= p < n && b[p] == a[i];
        let q = choose|q: int| 0 <= q < n && a[q] == b[i];
        if p < i {
            assert(a[p] == b[p]);
            assert(before(a[p], a[i]));
        }
        if q < i {
            assert(b[q] == a[q]);
            assert(before(b[q], b[i]));
        }
        if p > i && q > i {
            assert(before(b[i], b[p]));
            assert(before(a[i], a[q]));
        }
    }
}

/// There is only one way to list numbers in order.
pub proof fn lemma_listing_is_unique(
    before: spec_fn(usize, usize) -> bool,
    a: Seq<usize>,
    b: Seq<usize>,
    n: int,
)
    requires
        is_one_way(before),
        is_listing(before, a, n),
        is_listing(before, b, n),
    ensures
        a == b,
{
    lemma_same_start(before, a, b, n, n);
    assert(a =~= b);
}

/// There is only one merge order.
pub proof fn law_merge_order_is_unique(groups: Seq<GroupInfoView>, a: Seq<usize>, b: Seq<usize>)
    requires
        is_merge_order(groups, a),
        is_merge_order(groups, b),
    ensures
        a == b,
{
    let before = |x: usize, y: usize| comes_before(groups, x, y);
    assert forall|i: int, j: int| 0 <= i < j < a.len() implies #[trigger] before(a[i], a[j]) by {
        assert(comes_before(groups, a[i], a[j]));
    }
    assert forall|i: int, j: int| 0 <= i < j < b.len() implies #[trigger] before(b[i], b[j]) by {
        assert(comes_before(groups, b[i], b[j]));
    }
    lemma_listing_is_unique(before, a, b, groups.len() as int);
}

/// How many bytes a group produces.
pub fn produced_bytes(group: &GroupInfo) -> (r: u128)
    ensures
        r == group_bytes(group.deep_view()),
{
    let ghost files = group.dst_files.deep_view();
    let n: usize = group.dst_files.len();
    let mut sum: u128 = 0;
    let mut i: usize = 0;
    while i < n
        invariant
            n == group.dst_files@.len(),
            files == group.dst_files.deep_view(),
            i <= n,
            sum == size_sum(files.take(i as int)),
            sum <= i * 0x1_0000_0000_0000_0000,
        decreases n - i,
    {
        proof {
            assert(files.take(i + 1).drop_last() =~= files.take(i as int));
            assert(files.take(i + 1).last() == group.dst_files@[i as int].deep_view());
            assert(i * 0x1_0000_0000_0000_0000 <= 0xffff_ffff_ffff_ffff * 0x1_0000_0000_0000_0000);
        }
        sum = sum + group.dst_files[i].size as u128;
        i = i + 1;
    }
    assert(files.take(n as int) =~= files);
    sum
}

/// The order in which groups are merged: the largest first, as large ones as they are listed.
pub fn merge_order(groups: &Vec<GroupInfo>) -> (r: Vec<usize>)
    ensures
        is_merge_order(groups.deep_view(), r@),
{
    let ghost all = groups.deep_view();
    let n: usize = groups.len();
    let mut keys: Vec<u128> = Vec::new();
    let mut r: Vec<usize> = Vec::new();
    let mut i: usize = 0;
    while i < n
        invariant
            n == groups@.len(),
            all == groups.deep_view(),
            i <= n,
            keys@.len() == i,
            forall|k: int| 0 <= k < i ==> #[trigger] keys@[k] == group_bytes(all[k]),
            is_order(all, r@, i as int),
        decreases n - i,
    {
        let key: u128 = produced_bytes(&groups[i]);
        keys.push(key);
        let mut at: usize = i;
        while at > 0 && keys[r[at - 1]] < key
            invariant
                at <= i < n,
                r@.len() == i,
                keys@.len() == i + 1,
                key == group_bytes(all[i as int]),
                forall|k: int| 0 <= k <= i ==> #[trigger] keys@[k] == group_bytes(all[k]),
                is_order(all, r@, i as int),
                forall|k: int| at <= k < i ==> group_bytes(all[(#[trigger] r@[k]) as int]) < key,
            decreases at,
        {
            at = at - 1;
        }
        let ghost before = r@;
        r.insert(at, i);
        proof {
            assert(r@ == before.insert(at as int, i));
            assert forall|a: int, b: int| 0 <= a < b < r@.len() implies #[trigger] comes_before(
                all,
                r@[a],
                r@[b],
            ) by {
                let a0 = if a < at {
                    a
                } else {
                    a - 1
                };
                let b0 = if b < at {
                    b
                } else {
                    b - 1
                };
                if a == at {
                    assert(r@[b] == before[b - 1]);
                } else if b == at {
                    assert(r@[a] == before[a]);
                    assert(at > 0);
                    assert(keys@[before[at - 1] as int] >= key);
                    if a < at - 1 {
                        assert(comes_before(all, before[a], before[at - 1]));
                    }
                } else {
                    assert(comes_before(all, before[a0], before[b0]));
                }
            }
            assert forall|a: int| 0 <= a < r@.len() implies #[trigger] r@[a] < i + 1 by {
                if a < at {
                    assert(r@[a] == before[a]);
                } else if a > at {
                    assert(r@[a] == before[a - 1]);
                }
            }
        }
        i = i + 1;
    }
    r
}

}
