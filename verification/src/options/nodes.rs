//! Where a strike falls among the nodes of a tree.

use vstd::prelude::*;

verus! {

/// A figure that is no number, in the one form figures that are none compare
/// in.
pub const NOT_A_NUMBER: u64 = 0x7ff8_0000_0000_0000;

/// The place of a figure in the order of all figures, from the lowest to those
/// that are no number. Nought below stands ahead of nought above.
pub open spec fn rank(bits: u64) -> int {
    let magnitude = if bits >= 0x8000_0000_0000_0000 {
        bits - 0x8000_0000_0000_0000
    } else {
        bits as int
    };
    if magnitude > 0x7ff0_0000_0000_0000 {
        NOT_A_NUMBER as int
    } else if bits >= 0x8000_0000_0000_0000 {
        -magnitude - 1
    } else {
        magnitude
    }
}

fn rank_of(bits: u64) -> (r: i64)
    ensures
        r == rank(bits),
{
    let negative: bool = bits >= 0x8000_0000_0000_0000;
    let magnitude: u64 = if negative {
        bits - 0x8000_0000_0000_0000
    } else {
        bits
    };
    if magnitude > 0x7ff0_0000_0000_0000 {
        NOT_A_NUMBER as i64
    } else if negative {
        -(magnitude as i64) - 1
    } else {
        magnitude as i64
    }
}

/// Where a search of nodes between two places ends. Which of nodes that
/// coincide it ends on matters, so the search halves what is left of them.
pub open spec fn search(nodes: Seq<u64>, strike: u64, low: int, high: int) -> int
    decreases high - low + 1,
{
    if low > high {
        low
    } else {
        let middle = (low + high) / 2;
        if rank(nodes[middle]) < rank(strike) {
            search(nodes, strike, middle + 1, high)
        } else if rank(nodes[middle]) > rank(strike) {
            search(nodes, strike, low, middle - 1)
        } else {
            middle
        }
    }
}

/// Where a strike falls among nodes.
pub fn strike_position(nodes: &Vec<u64>, strike: u64) -> (position: usize)
    requires
        nodes@.len() <= i32::MAX,
    ensures
        position == search(nodes@, strike, 0, nodes@.len() - 1),
        position <= nodes@.len(),
{
    let mut low: i64 = 0;
    let mut high: i64 = nodes.len() as i64 - 1;
    let key: i64 = rank_of(strike);
    while low <= high
        invariant
            0 <= low <= high + 1,
            high < nodes@.len() <= i32::MAX,
            key == rank(strike),
            search(nodes@, strike, 0, nodes@.len() - 1) == search(
                nodes@,
                strike,
                low as int,
                high as int,
            ),
        decreases high - low + 1,
    {
        let middle: i64 = (low + high) / 2;
        let at: i64 = rank_of(nodes[middle as usize]);
        if at < key {
            low = middle + 1;
        } else if at > key {
            high = middle - 1;
        } else {
            return middle as usize;
        }
    }
    low as usize
}

/// Whether nodes stand in ascending order.
pub open spec fn ascending(nodes: Seq<u64>) -> bool {
    forall|i: int, j: int|
        0 <= i <= j < nodes.len() ==> rank(#[trigger] nodes[i]) <= rank(#[trigger] nodes[j])
}

/// In ascending nodes a strike falls where every node before its place is no
/// higher and every node from it on is no lower.
pub proof fn the_strike_parts_the_nodes(nodes: Seq<u64>, strike: u64, low: int, high: int)
    requires
        ascending(nodes),
        0 <= low <= high + 1 <= nodes.len(),
        forall|i: int| 0 <= i < low ==> rank(#[trigger] nodes[i]) < rank(strike),
        forall|i: int| high < i < nodes.len() ==> rank(#[trigger] nodes[i]) > rank(strike),
    ensures
        ({
            let at = search(nodes, strike, low, high);
            &&& 0 <= at <= nodes.len()
            &&& forall|i: int| 0 <= i < at ==> rank(#[trigger] nodes[i]) <= rank(strike)
            &&& forall|i: int| at <= i < nodes.len() ==> rank(#[trigger] nodes[i]) >= rank(strike)
        }),
    decreases high - low + 1,
{
    if low <= high {
        let middle = (low + high) / 2;
        if rank(nodes[middle]) < rank(strike) {
            assert forall|i: int| 0 <= i < middle + 1 implies rank(#[trigger] nodes[i]) < rank(
                strike,
            ) by {
                assert(rank(nodes[i]) <= rank(nodes[middle]));
            }
            the_strike_parts_the_nodes(nodes, strike, middle + 1, high);
        } else if rank(nodes[middle]) > rank(strike) {
            assert forall|i: int| middle - 1 < i < nodes.len() implies rank(#[trigger] nodes[i])
                > rank(strike) by {
                assert(rank(nodes[middle]) <= rank(nodes[i]));
            }
            the_strike_parts_the_nodes(nodes, strike, low, middle - 1);
        } else {
            assert forall|i: int| 0 <= i < middle implies rank(#[trigger] nodes[i]) <= rank(
                strike,
            ) by {
                assert(rank(nodes[i]) <= rank(nodes[middle]));
            }
            assert forall|i: int| middle <= i < nodes.len() implies rank(#[trigger] nodes[i])
                >= rank(strike) by {
                assert(rank(nodes[middle]) <= rank(nodes[i]));
            }
        }
    }
}

} // verus!
