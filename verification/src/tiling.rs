//! What holds of every cut: the children tile their parent.

use crate::layout::{
    boundary, child, demand, lemma_boundary_steps, lemma_demand_grows, share, split_spec,
    Constraint, Direction, Region,
};
use vstd::prelude::*;

verus! {

/// Some child holds the cell at column `col`, row `row`.
pub open spec fn covered(children: Seq<Region>, col: int, row: int) -> bool {
    exists|k: int| 0 <= k < children.len() && #[trigger] children[k].contains(col, row)
}

/// No cell lies in two children.
pub open spec fn disjoint(children: Seq<Region>) -> bool {
    forall|j: int, k: int, col: int, row: int|
        0 <= j < k < children.len() ==> !(#[trigger] children[j].contains(col, row)
            && #[trigger] children[k].contains(col, row))
}

/// The children tile the parent: each cell of the parent lies in exactly one
/// child, and no child reaches outside the parent.
pub open spec fn tiles(parent: Region, children: Seq<Region>) -> bool {
    &&& forall|col: int, row: int|
        #![trigger parent.contains(col, row)]
        #![trigger covered(children, col, row)]
        parent.contains(col, row) <==> covered(children, col, row)
    &&& disjoint(children)
}

/// The sizes of the children along `direction`, added up.
pub open spec fn extents_total(children: Seq<Region>, direction: Direction) -> int
    decreases children.len(),
{
    if children.len() == 0 {
        0
    } else {
        extents_total(children.drop_last(), direction) + children.last().extent(direction)
    }
}

/// A later boundary is never before an earlier one.
proof fn lemma_boundary_ordered(total: int, constraints: Seq<Constraint>, j: int, k: int)
    requires
        0 <= total,
        0 <= j <= k,
    ensures
        0 <= boundary(total, constraints, j) <= boundary(total, constraints, k) <= total,
    decreases k - j,
{
    lemma_boundary_steps(total, constraints, j);
    if j < k {
        lemma_boundary_ordered(total, constraints, j + 1, k);
    }
}

/// Every offset inside the parent falls between two neighbouring boundaries.
proof fn lemma_offset_has_child(total: int, constraints: Seq<Constraint>, offset: int, k: int) -> (found:
    int)
    requires
        0 <= k < constraints.len(),
        boundary(total, constraints, k) <= offset < total,
    ensures
        k <= found < constraints.len(),
        boundary(total, constraints, found) <= offset < boundary(total, constraints, found + 1),
    decreases constraints.len() - k,
{
    if offset < boundary(total, constraints, k + 1) {
        k
    } else {
        lemma_offset_has_child(total, constraints, offset, k + 1)
    }
}

/// The first `k` children are together as long as the offset of boundary `k`.
proof fn lemma_prefix_total(
    region: Region,
    direction: Direction,
    constraints: Seq<Constraint>,
    k: int,
)
    requires
        region.in_bounds(),
        0 <= k <= constraints.len(),
    ensures
        extents_total(split_spec(region, direction, constraints).subrange(0, k), direction) == (if k
            == 0 {
            0
        } else {
            boundary(region.extent(direction), constraints, k)
        }),
    decreases k,
{
    let total = region.extent(direction);
    let children = split_spec(region, direction, constraints);
    let prefix = children.subrange(0, k);
    if k > 0 {
        lemma_prefix_total(region, direction, constraints, k - 1);
        lemma_boundary_steps(total, constraints, k - 1);
        assert(prefix.drop_last() =~= children.subrange(0, k - 1));
        assert(prefix.last() == child(region, direction, constraints, k - 1));
    }
}

/// Cutting a region by at least one constraint tiles it: every cell of the
/// region lies in exactly one child, no child reaches outside it, and the sizes
/// of the children along the cut axis add up to the size of the region. This
/// holds whatever the constraints ask for, so also where percentages add up to
/// a hundred or less. Without a constraint there is no child, and only a region
/// of no extent is tiled by nothing.
pub proof fn law_split_tiles_region(
    region: Region,
    direction: Direction,
    constraints: Seq<Constraint>,
)
    requires
        region.in_bounds(),
        constraints.len() > 0 || region.extent(direction) == 0,
    ensures
        tiles(region, split_spec(region, direction, constraints)),
        extents_total(split_spec(region, direction, constraints), direction) == region.extent(
            direction,
        ),
{
    let total = region.extent(direction);
    let children = split_spec(region, direction, constraints);
    let n = constraints.len() as int;

    assert(children.subrange(0, n) =~= children);
    lemma_prefix_total(region, direction, constraints, n);

    assert forall|col: int, row: int| region.contains(col, row) implies covered(
        children,
        col,
        row,
    ) by {
        let offset = match direction {
            Direction::Horizontal => col - region.x,
            Direction::Vertical => row - region.y,
        };
        lemma_boundary_steps(total, constraints, 0);
        let k = lemma_offset_has_child(total, constraints, offset, 0);
        lemma_boundary_ordered(total, constraints, k, k + 1);
        lemma_boundary_ordered(total, constraints, k + 1, n);
        assert(children[k].contains(col, row));
    }
    assert forall|col: int, row: int| covered(children, col, row) implies region.contains(
        col,
        row,
    ) by {
        let k = choose|k: int| 0 <= k < children.len() && children[k].contains(col, row);
        lemma_boundary_ordered(total, constraints, k, k + 1);
        lemma_boundary_ordered(total, constraints, k + 1, n);
    }
    assert forall|j: int, k: int, col: int, row: int| 0 <= j < k < children.len() implies !(
    #[trigger] children[j].contains(col, row) && #[trigger] children[k].contains(col, row)) by {
        lemma_boundary_ordered(total, constraints, j, j + 1);
        lemma_boundary_ordered(total, constraints, j + 1, k);
        lemma_boundary_ordered(total, constraints, k, k + 1);
        lemma_boundary_ordered(total, constraints, k + 1, n);
    }
}

/// Every child but the last takes its share, or what the children before it
/// have left where that is less; the last child takes all that is left. So a
/// child is cut down when the shares add up to more than the region has, down
/// to nothing if need be, and no child has a negative size.
pub proof fn law_child_takes_share_or_rest(
    region: Region,
    direction: Direction,
    constraints: Seq<Constraint>,
    k: int,
)
    requires
        region.in_bounds(),
        0 <= k < constraints.len(),
    ensures
        ({
            let total = region.extent(direction);
            let rest = total - boundary(total, constraints, k);
            let taken = split_spec(region, direction, constraints)[k].extent(direction);
            &&& 0 <= rest <= total
            &&& k + 1 == constraints.len() ==> taken == rest
            &&& k + 1 < constraints.len() ==> taken == if share(total, constraints[k]) < rest {
                share(total, constraints[k])
            } else {
                rest
            }
        }),
{
    let total = region.extent(direction);
    lemma_boundary_steps(total, constraints, k);
    lemma_demand_grows(total, constraints, k);
}

/// The share of a percentage is the whole number of cells nearest to that
/// percentage of the parent, and the lower one of two that are equally near.
pub proof fn law_share_is_nearest_cell(total: int, percent: u16)
    ensures
        -50 <= 100 * share(total, Constraint::Percentage(percent)) - total * percent <= 49,
{
}

/// Cutting a region by a single constraint gives back the region itself: one
/// child, equal to the region. A single constraint of 100% is the case in point.
pub proof fn law_single_constraint_returns_region(
    region: Region,
    direction: Direction,
    constraint: Constraint,
)
    requires
        region.in_bounds(),
    ensures
        split_spec(region, direction, seq![constraint]) == seq![region],
        split_spec(region, direction, seq![Constraint::Percentage(100)]) == seq![region],
{
    let total = region.extent(direction);
    let one = seq![constraint];
    let full = seq![Constraint::Percentage(100)];
    assert(demand(total, one, 0) == 0);
    assert(demand(total, full, 0) == 0);
    assert(split_spec(region, direction, one) =~= seq![region]);
    assert(split_spec(region, direction, full) =~= seq![region]);
}

/// Cutting a region of odd extent into two halves of 50% each gives the odd
/// cell to the second, the last child: the first gets the smaller half and the
/// last one cell more.
pub proof fn law_halves_give_odd_cell_to_last(region: Region, direction: Direction)
    requires
        region.in_bounds(),
        region.extent(direction) % 2 == 1,
    ensures
        split_spec(region, direction, even_halves()).len() == 2,
        split_spec(region, direction, even_halves())[0].extent(direction) == (region.extent(
            direction,
        ) - 1) / 2,
        split_spec(region, direction, even_halves())[1].extent(direction) == (region.extent(
            direction,
        ) + 1) / 2,
        split_spec(region, direction, even_halves())[1].extent(direction) == split_spec(
            region,
            direction,
            even_halves(),
        )[0].extent(direction) + 1,
{
    let total = region.extent(direction);
    let halves = even_halves();
    assert(demand(total, halves, 0) == 0);
    assert(demand(total, halves, 1) == (total * 50 + 49) / 100) by {
        reveal_with_fuel(demand, 2);
    }
}

/// Two constraints of 50% each.
pub open spec fn even_halves() -> Seq<Constraint> {
    seq![Constraint::Percentage(50), Constraint::Percentage(50)]
}

} // verus!
