//! Stable stacking order.

use vstd::prelude::*;
use crate::style::{value_of, Computed};
use crate::text::{parse_i32, same, signed_value, trim, trimmed, within_i32};

verus! {

/// An order with one more position in it, behind every position whose key is
/// not greater.
pub open spec fn placed(order: Seq<int>, keys: Seq<i32>, position: int) -> Seq<int>
    decreases order.len(),
{
    if order.len() > 0 && keys[order.last()] > keys[position] {
        placed(order.drop_last(), keys, position).push(order.last())
    } else {
        order.push(position)
    }
}

/// The positions of the first `n` keys by ascending key; equal keys keep their
/// order.
pub open spec fn order_of_first(keys: Seq<i32>, n: int) -> Seq<int>
    decreases n,
{
    if n <= 0 {
        Seq::empty()
    } else {
        placed(order_of_first(keys, n - 1), keys, n - 1)
    }
}

/// The positions of all keys by ascending key.
pub open spec fn order_of(keys: Seq<i32>) -> Seq<int> {
    order_of_first(keys, keys.len() as int)
}

/// Keys ascend, and equal keys keep their order.
pub open spec fn ascends(order: Seq<int>, keys: Seq<i32>) -> bool {
    forall|i: int, j: int|
        0 <= i < j < order.len() ==> keys[#[trigger] order[i]] < keys[#[trigger] order[j]] || (
        keys[order[i]] == keys[order[j]] && order[i] < order[j])
}

/// Every position comes before `n`, and the keys ascend.
pub open spec fn ordered(order: Seq<int>, keys: Seq<i32>, n: int) -> bool {
    &&& order.len() == n
    &&& forall|i: int| 0 <= i < order.len() ==> 0 <= #[trigger] order[i] < n
    &&& ascends(order, keys)
}

proof fn placed_keeps_order(order: Seq<int>, keys: Seq<i32>, position: int)
    requires
        position >= 0,
        forall|i: int| 0 <= i < order.len() ==> 0 <= #[trigger] order[i] < position,
        ascends(order, keys),
    ensures
        placed(order, keys, position).len() == order.len() + 1,
        forall|i: int|
            0 <= i < order.len() + 1 ==> 0 <= #[trigger] placed(order, keys, position)[i]
                <= position,
        forall|i: int|
            0 <= i < order.len() + 1 ==> order.contains(
                #[trigger] placed(order, keys, position)[i],
            ) || placed(order, keys, position)[i] == position,
        ascends(placed(order, keys, position), keys),
    decreases order.len(),
{
    let p = placed(order, keys, position);
    if order.len() > 0 && keys[order.last()] > keys[position] {
        let rest = order.drop_last();
        placed_keeps_order(rest, keys, position);
        let q = placed(rest, keys, position);
        assert(p =~= q.push(order.last()));
        assert forall|i: int| 0 <= i < p.len() implies order.contains(#[trigger] p[i]) || p[i]
            == position by {
            if i < q.len() {
                assert(p[i] == q[i]);
                if rest.contains(q[i]) {
                    let k = choose|k: int| 0 <= k < rest.len() && rest[k] == q[i];
                    assert(order[k] == q[i]);
                }
            } else {
                assert(order[order.len() - 1] == p[i]);
            }
        }
        assert forall|i: int, j: int| 0 <= i < j < p.len() implies keys[#[trigger] p[i]]
            < keys[#[trigger] p[j]] || (keys[p[i]] == keys[p[j]] && p[i] < p[j]) by {
            if j < q.len() {
                assert(p[i] == q[i] && p[j] == q[j]);
            } else {
                assert(p[i] == q[i]);
                if rest.contains(q[i]) {
                    let k = choose|k: int| 0 <= k < rest.len() && rest[k] == q[i];
                    assert(order[k] == q[i]);
                    assert(order[order.len() - 1] == p[j]);
                }
            }
        }
    } else {
        assert(p =~= order.push(position));
        assert forall|i: int| 0 <= i < p.len() implies order.contains(#[trigger] p[i]) || p[i]
            == position by {
            if i < order.len() {
                assert(order[i] == p[i]);
            }
        }
        assert forall|i: int, j: int| 0 <= i < j < p.len() implies keys[#[trigger] p[i]]
            < keys[#[trigger] p[j]] || (keys[p[i]] == keys[p[j]] && p[i] < p[j]) by {
            if j == order.len() {
                assert(p[i] == order[i]);
                if i < order.len() - 1 {
                    assert(keys[order[i]] <= keys[order[order.len() - 1]]);
                }
            } else {
                assert(p[i] == order[i] && p[j] == order[j]);
            }
        }
    }
}

/// The order is ascending and stable, and has every position once.
pub proof fn order_is_stable(keys: Seq<i32>, n: int)
    requires
        0 <= n <= keys.len(),
    ensures
        ordered(order_of_first(keys, n), keys, n),
    decreases n,
{
    if n > 0 {
        order_is_stable(keys, n - 1);
        placed_keeps_order(order_of_first(keys, n - 1), keys, n - 1);
    }
}

proof fn placed_splits(order: Seq<int>, keys: Seq<i32>, position: int, at: int)
    requires
        0 <= at <= order.len(),
        forall|i: int| at <= i < order.len() ==> keys[#[trigger] order[i]] > keys[position],
        at > 0 ==> keys[order[at - 1]] <= keys[position],
    ensures
        placed(order, keys, position) == order.insert(at, position),
    decreases order.len(),
{
    if at < order.len() {
        assert(order.last() == order[order.len() - 1]);
        placed_splits(order.drop_last(), keys, position, at);
        assert(order.drop_last().insert(at, position).push(order.last()) =~= order.insert(
            at,
            position,
        ));
    } else {
        assert(order.push(position) =~= order.insert(at, position));
    }
}

/// Orders positions by ascending key.
pub fn stable_order(keys: &Vec<i32>) -> (result: Vec<usize>)
    ensures
        result@.len() == keys@.len(),
        forall|i: int| 0 <= i < result@.len() ==> (#[trigger] result@[i]) < keys@.len(),
        Seq::new(result@.len(), |i: int| result@[i] as int) == order_of(keys@),
{
    let mut order: Vec<usize> = Vec::new();
    let mut n: usize = 0;
    assert(Seq::new(0, |i: int| order@[i] as int) =~= order_of_first(keys@, 0));
    while n < keys.len()
        invariant
            n <= keys@.len(),
            order@.len() == n,
            forall|i: int| 0 <= i < order@.len() ==> (#[trigger] order@[i]) < n,
            Seq::new(order@.len(), |i: int| order@[i] as int) == order_of_first(keys@, n as int),
        decreases keys@.len() - n,
    {
        let ghost before = Seq::new(order@.len(), |i: int| order@[i] as int);
        let key: i32 = keys[n];
        let mut at: usize = n;
        while at > 0 && keys[order[at - 1]] > key
            invariant
                n < keys@.len(),
                key == keys@[n as int],
                at <= n,
                order@.len() == n,
                forall|i: int| 0 <= i < order@.len() ==> (#[trigger] order@[i]) < n,
                before == Seq::new(order@.len(), |i: int| order@[i] as int),
                forall|i: int| at <= i < before.len() ==> keys@[#[trigger] before[i]] > key,
            decreases at,
        {
            assert(before[at - 1] == order@[at - 1]);
            at = at - 1;
        }
        proof {
            if at > 0 {
                assert(before[at - 1] == order@[at - 1]);
            }
            placed_splits(before, keys@, n as int, at as int);
        }
        let ghost old_order = order@;
        order.insert(at, n);
        assert(Seq::new(order@.len(), |i: int| order@[i] as int) =~= before.insert(
            at as int,
            n as int,
        ));
        assert forall|i: int| 0 <= i < order@.len() implies (#[trigger] order@[i]) < n + 1 by {
            if i < at {
                assert(order@[i] == old_order[i]);
            } else if i > at {
                assert(order@[i] == old_order[i - 1]);
            }
        }
        n = n + 1;
    }
    order
}

/// The number of a stacking property; what cannot be read is zero.
pub open spec fn z_index_of(style: Map<Seq<char>, Seq<char>>) -> int {
    match value_of(style, "z-index"@) {
        Some(value) => match within_i32(signed_value(trimmed(value))) {
            Some(number) => number,
            None => 0,
        },
        None => 0,
    }
}

/// Reads the number of the stacking property.
pub fn z_index(computed: &Computed) -> (result: i32)
    ensures
        result == z_index_of(computed@),
{
    match computed.get("z-index") {
        Some(value) => match parse_i32(trim(value)) {
            Some(number) => number,
            None => 0,
        },
        None => 0,
    }
}

/// A box is positioned.
pub open spec fn positioned(style: Map<Seq<char>, Seq<char>>) -> bool {
    let position = value_of(style, "position"@);
    position == Some("relative"@) || position == Some("absolute"@) || position == Some("fixed"@)
}

/// The stacking level of a box among its siblings: only positioned boxes and
/// flex items have one.
pub open spec fn level_of(style: Map<Seq<char>, Seq<char>>, flex_item: bool) -> int {
    if positioned(style) || flex_item {
        z_index_of(style)
    } else {
        0
    }
}

/// The stacking level of a box among its siblings.
pub fn stacking_level(computed: &Computed, flex_item: bool) -> (result: i32)
    ensures
        result == level_of(computed@, flex_item),
{
    let is_positioned = match computed.get("position") {
        Some(position) => same(position, "relative") || same(position, "absolute") || same(
            position,
            "fixed",
        ),
        None => false,
    };
    if !is_positioned && !flex_item {
        return 0;
    }
    z_index(computed)
}

} // verus!
