//! The layout engine: cutting a region into children along one axis.
//!
//! A region is cut by an ordered list of constraints. Every child but the last
//! gets its share (an absolute number of cells, or a percentage of the parent
//! rounded to the nearest cell), cut down to what is still free; the last child
//! takes all that is left. The children therefore always cover the parent.

use vstd::prelude::*;

verus! {

/// A rectangle of terminal cells: the column and row of its top-left cell, and
/// its size.
#[derive(Clone, Copy, Debug, PartialEq, Eq, Structural)]
pub struct Region {
    pub x: u16,
    pub y: u16,
    pub width: u16,
    pub height: u16,
}

/// The axis along which a region is cut.
#[derive(Clone, Copy, Debug, PartialEq, Eq, Structural)]
pub enum Direction {
    /// Children stand side by side, left to right.
    Horizontal,
    /// Children are stacked, top to bottom.
    Vertical,
}

/// How much of the parent a child asks for along the cut axis.
#[derive(Clone, Copy, Debug, PartialEq, Eq, Structural)]
pub enum Constraint {
    /// A fixed number of cells.
    Length(u16),
    /// A percentage of the parent's extent.
    Percentage(u16),
}

impl Region {
    /// The region's right and bottom edges are coordinates a `u16` can hold.
    pub open spec fn in_bounds(self) -> bool {
        self.x + self.width <= u16::MAX && self.y + self.height <= u16::MAX
    }

    /// The region holds no cell.
    pub open spec fn is_empty(self) -> bool {
        self.width == 0 || self.height == 0
    }

    /// The cell at column `col`, row `row` lies in the region.
    pub open spec fn contains(self, col: int, row: int) -> bool {
        self.x <= col < self.x + self.width && self.y <= row < self.y + self.height
    }

    /// The region's size along `direction`.
    pub open spec fn extent(self, direction: Direction) -> int {
        match direction {
            Direction::Horizontal => self.width as int,
            Direction::Vertical => self.height as int,
        }
    }
}

/// The number of cells that `constraint` asks for in a parent of `total` cells.
/// A percentage is rounded to the nearest cell; exactly half a cell is rounded
/// down, so that the odd cell falls to a later child.
pub open spec fn share(total: int, constraint: Constraint) -> int {
    match constraint {
        Constraint::Length(cells) => cells as int,
        Constraint::Percentage(percent) => (total * percent + 49) / 100,
    }
}

/// The cells that the first `k` constraints ask for together.
pub open spec fn demand(total: int, constraints: Seq<Constraint>, k: int) -> int
    decreases k,
{
    if k <= 0 {
        0
    } else {
        demand(total, constraints, k - 1) + share(total, constraints[k - 1])
    }
}

/// The offset from the parent's start at which child `k` begins, which is where
/// child `k - 1` ends: what the earlier children asked for, but no more than the
/// parent has. The last child ends where the parent ends.
pub open spec fn boundary(total: int, constraints: Seq<Constraint>, k: int) -> int {
    if k >= constraints.len() || demand(total, constraints, k) >= total {
        total
    } else {
        demand(total, constraints, k)
    }
}

/// Child `k` of `region` cut along `direction`. It spans the parent across the
/// axis, and runs from its boundary to the next one along it. The children of a
/// region without cells all sit at the region's origin.
pub open spec fn child(
    region: Region,
    direction: Direction,
    constraints: Seq<Constraint>,
    k: int,
) -> Region {
    let total = region.extent(direction);
    let low = boundary(total, constraints, k);
    let high = boundary(total, constraints, k + 1);
    let offset = if region.is_empty() { 0 } else { low };
    match direction {
        Direction::Horizontal => Region {
            x: (region.x + offset) as u16,
            y: region.y,
            width: (high - low) as u16,
            height: region.height,
        },
        Direction::Vertical => Region {
            x: region.x,
            y: (region.y + offset) as u16,
            width: region.width,
            height: (high - low) as u16,
        },
    }
}

/// The children of `region` cut along `direction`: one for each constraint, in
/// the order of the constraints.
pub open spec fn split_spec(
    region: Region,
    direction: Direction,
    constraints: Seq<Constraint>,
) -> Seq<Region> {
    Seq::new(constraints.len(), |k: int| child(region, direction, constraints, k))
}

/// Shares and demands are never negative.
pub proof fn lemma_demand_grows(total: int, constraints: Seq<Constraint>, k: int)
    requires
        0 <= total,
    ensures
        0 <= demand(total, constraints, k),
        demand(total, constraints, k) <= demand(total, constraints, k + 1),
    decreases k,
{
    if k > 0 {
        lemma_demand_grows(total, constraints, k - 1);
    }
    let percent = match constraints[k] {
        Constraint::Length(cells) => 0,
        Constraint::Percentage(percent) => percent as int,
    };
    assert(0 <= total * percent) by (nonlinear_arith)
        requires
            0 <= total,
            0 <= percent,
    ;
}

/// Boundaries lie within the parent and never move backwards.
pub proof fn lemma_boundary_steps(total: int, constraints: Seq<Constraint>, k: int)
    requires
        0 <= total,
        0 <= k,
    ensures
        0 <= boundary(total, constraints, k) <= boundary(total, constraints, k + 1) <= total,
        k == 0 && constraints.len() > 0 ==> boundary(total, constraints, k) == 0,
{
    lemma_demand_grows(total, constraints, k);
}

/// Cuts `region` along `direction` into one child for each constraint.
pub fn split(region: Region, direction: Direction, constraints: &[Constraint]) -> (children: Vec<
    Region,
>)
    requires
        region.in_bounds(),
    ensures
        children@ == split_spec(region, direction, constraints@),
        children@.len() == constraints@.len(),
        forall|k: int| 0 <= k < children@.len() ==> (#[trigger] children@[k]).in_bounds(),
        region.is_empty() ==> forall|k: int|
            0 <= k < children@.len() ==> {
                &&& (#[trigger] children@[k]).is_empty()
                &&& children@[k].x == region.x
                &&& children@[k].y == region.y
            },
{
    let total: u16 = match direction {
        Direction::Horizontal => region.width,
        Direction::Vertical => region.height,
    };
    let empty = region.width == 0 || region.height == 0;
    let n: usize = constraints.len();
    let mut children: Vec<Region> = Vec::new();
    let mut used: u16 = 0;
    let mut k: usize = 0;
    while k < n
        invariant
            k <= n,
            n == constraints@.len(),
            region.in_bounds(),
            total as int == region.extent(direction),
            empty == region.is_empty(),
            used <= total,
            k < n ==> used as int == boundary(total as int, constraints@, k as int),
            children@.len() == k,
            forall|j: int|
                0 <= j < k ==> #[trigger] children@[j] == child(region, direction, constraints@, j),
            forall|j: int| 0 <= j < k ==> (#[trigger] children@[j]).in_bounds(),
            empty ==> forall|j: int|
                0 <= j < k ==> {
                    &&& (#[trigger] children@[j]).is_empty()
                    &&& children@[j].x == region.x
                    &&& children@[j].y == region.y
                },
        decreases n - k,
    {
        let free: u16 = total - used;
        let taken: u16 = if k + 1 == n {
            free
        } else {
            let wanted: u32 = match constraints[k] {
                Constraint::Length(cells) => cells as u32,
                Constraint::Percentage(percent) => {
                    assert(total * percent <= 65535 * 65535) by (nonlinear_arith)
                        requires
                            total <= 65535,
                            percent <= 65535,
                    ;
                    (total as u32 * percent as u32 + 49) / 100
                },
            };
            if wanted > free as u32 {
                free
            } else {
                wanted as u16
            }
        };
        proof {
            lemma_demand_grows(total as int, constraints@, k as int);
            assert(used + taken == boundary(total as int, constraints@, k + 1));
        }
        let offset: u16 = if empty {
            0
        } else {
            used
        };
        let piece = match direction {
            Direction::Horizontal => Region {
                x: region.x + offset,
                y: region.y,
                width: taken,
                height: region.height,
            },
            Direction::Vertical => Region {
                x: region.x,
                y: region.y + offset,
                width: region.width,
                height: taken,
            },
        };
        assert(piece == child(region, direction, constraints@, k as int));
        children.push(piece);
        used = used + taken;
        k = k + 1;
    }
    assert(children@ =~= split_spec(region, direction, constraints@));
    children
}

} // verus!
