//! The occupancy table of a fixed-size arena.
//!
//! A grid is modelled by the set of its taken cells. How cells are laid out in
//! memory is private to this module.

use vstd::prelude::*;
use crate::position::Position;

verus! {

/// Height of the default arena.
pub const ARENA_HEIGHT: u16 = 32;

/// Width of the default arena.
pub const ARENA_WIDTH: u16 = 32;

/// Result of one `occupy` or `vacate` call.
#[derive(Clone, Copy, Debug, PartialEq, Eq, Hash, Structural)]
pub enum Outcome {
    /// The cell changed state as asked.
    Success,
    /// `occupy` found the cell already taken.
    Conflict,
    /// `vacate` found the cell already empty.
    AlreadyEmpty,
}

impl Outcome {
    /// The line to report for this outcome, if it calls for one.
    pub open spec fn diagnostic_text(self) -> Option<&'static str> {
        match self {
            Outcome::Success => None,
            Outcome::Conflict => Some("Moving in conflict"),
            Outcome::AlreadyEmpty => Some("Moving out from empty tile"),
        }
    }

    /// The line to report for this outcome: none for a success.
    pub fn diagnostic(&self) -> (line: Option<&'static str>)
        ensures
            line == self.diagnostic_text(),
    {
        match self {
            Outcome::Success => None,
            Outcome::Conflict => Some("Moving in conflict"),
            Outcome::AlreadyEmpty => Some("Moving out from empty tile"),
        }
    }
}

/// Whether `p` names a cell of an arena of height `H` and width `W`.
pub open spec fn in_arena<const H: u16, const W: u16>(p: Position) -> bool {
    0 <= p.x < H && 0 <= p.y < W
}

/// All cells of an arena of height `H` and width `W`.
pub open spec fn arena<const H: u16, const W: u16>() -> Set<Position> {
    Set::new(|p: Position| in_arena::<H, W>(p))
}

/// What `occupy` answers for `cell` when the cells in `taken` are taken.
pub open spec fn occupy_outcome(taken: Set<Position>, cell: Position) -> Outcome {
    if taken.contains(cell) {
        Outcome::Conflict
    } else {
        Outcome::Success
    }
}

/// The taken cells after `occupy` was called for `cell`.
pub open spec fn after_occupy(taken: Set<Position>, cell: Position) -> Set<Position> {
    if taken.contains(cell) {
        taken
    } else {
        taken.insert(cell)
    }
}

/// What `vacate` answers for `cell` when the cells in `taken` are taken.
pub open spec fn vacate_outcome(taken: Set<Position>, cell: Position) -> Outcome {
    if taken.contains(cell) {
        Outcome::Success
    } else {
        Outcome::AlreadyEmpty
    }
}

/// The taken cells after `vacate` was called for `cell`.
pub open spec fn after_vacate(taken: Set<Position>, cell: Position) -> Set<Position> {
    if taken.contains(cell) {
        taken.remove(cell)
    } else {
        taken
    }
}

/// A refused `occupy` leaves the taken cells as they were. So does every
/// further `occupy` of a cell once it is taken: the first call decides, and
/// repeating it is refused without effect.
pub proof fn lemma_rejected_occupy_changes_nothing(taken: Set<Position>, cell: Position)
    ensures
        occupy_outcome(taken, cell) != Outcome::Success ==> after_occupy(taken, cell) == taken,
        occupy_outcome(after_occupy(taken, cell), cell) == Outcome::Conflict,
        after_occupy(after_occupy(taken, cell), cell) == after_occupy(taken, cell),
{
}

/// A refused `vacate` leaves the taken cells as they were. So does every
/// further `vacate` of a cell once it is empty: the first call decides, and
/// repeating it is refused without effect.
pub proof fn lemma_rejected_vacate_changes_nothing(taken: Set<Position>, cell: Position)
    ensures
        vacate_outcome(taken, cell) != Outcome::Success ==> after_vacate(taken, cell) == taken,
        vacate_outcome(after_vacate(taken, cell), cell) == Outcome::AlreadyEmpty,
        after_vacate(after_vacate(taken, cell), cell) == after_vacate(taken, cell),
{
}

/// Place of a cell in the table: rows of `W` flags, one row per `x`.
spec fn cell_index<const W: u16>(p: Position) -> int {
    p.x * W + p.y
}

/// The cell whose flag stands at place `i` of the table.
spec fn cell_at<const W: u16>(i: int) -> Position {
    Position { x: (i / (W as int)) as i32, y: (i % (W as int)) as i32 }
}

/// The table of any arena is short enough to be indexed by `usize`.
proof fn lemma_table_len<const H: u16, const W: u16>()
    ensures
        0 <= H * W <= 0xffff * 0xffff,
{
    let h = H as int;
    let w = W as int;
    assert(0 <= h * w <= 0xffff * 0xffff) by (nonlinear_arith)
        requires
            0 <= h <= 0xffff,
            0 <= w <= 0xffff,
    ;
}

/// Every cell of the arena has a place in the table.
proof fn lemma_index_in_range<const H: u16, const W: u16>(p: Position)
    requires
        in_arena::<H, W>(p),
    ensures
        0 <= p.x * W,
        0 <= cell_index::<W>(p) < H * W,
{
    let x = p.x as int;
    let h = H as int;
    let w = W as int;
    assert(0 <= x * w && x * w + w <= h * w) by (nonlinear_arith)
        requires
            0 <= x < h,
            0 < w,
    ;
}

/// No two cells of the arena share a place in the table.
proof fn lemma_index_injective<const H: u16, const W: u16>(p: Position, q: Position)
    requires
        in_arena::<H, W>(p),
        in_arena::<H, W>(q),
        p != q,
    ensures
        cell_index::<W>(p) != cell_index::<W>(q),
{
    let w = W as int;
    let (px, py, qx, qy) = (p.x as int, p.y as int, q.x as int, q.y as int);
    if px * w + py == qx * w + qy {
        assert(px == qx) by (nonlinear_arith)
            requires
                px * w + py == qx * w + qy,
                0 <= py < w,
                0 <= qy < w,
        ;
    }
}

/// Every place in the table belongs to a cell of the arena.
proof fn lemma_cell_at<const H: u16, const W: u16>(i: int)
    requires
        0 <= i < H * W,
    ensures
        in_arena::<H, W>(cell_at::<W>(i)),
        cell_index::<W>(cell_at::<W>(i)) == i,
{
    let h = H as int;
    let w = W as int;
    assert(w > 0) by (nonlinear_arith)
        requires
            0 <= i < h * w,
            0 <= h,
            0 <= w,
    ;
    let x = i / w;
    let y = i % w;
    assert(0 <= y < w && i == x * w + y && 0 <= x < h) by (nonlinear_arith)
        requires
            0 <= i < h * w,
            w > 0,
            x == i / w,
            y == i % w,
    ;
}

/// The cells whose flag is set and stands before place `k` of a table.
spec fn flagged_below<const H: u16, const W: u16>(flags: Seq<bool>, k: int) -> Set<Position> {
    Set::new(
        |p: Position| in_arena::<H, W>(p) && cell_index::<W>(p) < k && flags[cell_index::<W>(p)],
    )
}

/// Looking at one more place of the table adds its cell if the flag is set,
/// and nothing otherwise.
proof fn lemma_flagged_below_step<const H: u16, const W: u16>(flags: Seq<bool>, k: int)
    requires
        flags.len() == H * W,
        0 <= k < H * W,
    ensures
        !flagged_below::<H, W>(flags, k).contains(cell_at::<W>(k)),
        flags[k] ==> flagged_below::<H, W>(flags, k + 1)
            == flagged_below::<H, W>(flags, k).insert(cell_at::<W>(k)),
        !flags[k] ==> flagged_below::<H, W>(flags, k + 1) == flagged_below::<H, W>(flags, k),
{
    lemma_cell_at::<H, W>(k);
    let before = flagged_below::<H, W>(flags, k);
    let after = flagged_below::<H, W>(flags, k + 1);
    let expected = if flags[k] {
        before.insert(cell_at::<W>(k))
    } else {
        before
    };
    assert forall|p: Position| after.contains(p) == expected.contains(p) by {
        if in_arena::<H, W>(p) && p != cell_at::<W>(k) {
            lemma_index_injective::<H, W>(p, cell_at::<W>(k));
        }
    }
    assert(after =~= expected);
}

/// The flagged cells among the first `k` places are finitely many, at most
/// `k`, and exactly `k` where every flag is set.
proof fn lemma_flagged_below_len<const H: u16, const W: u16>(flags: Seq<bool>, k: int)
    requires
        flags.len() == H * W,
        0 <= k <= H * W,
    ensures
        flagged_below::<H, W>(flags, k).finite(),
        flagged_below::<H, W>(flags, k).len() <= k,
        (forall|i: int| 0 <= i < k ==> flags[i]) ==> flagged_below::<H, W>(flags, k).len() == k,
    decreases k,
{
    if k == 0 {
        assert(flagged_below::<H, W>(flags, 0) =~= Set::<Position>::empty());
    } else {
        lemma_flagged_below_len::<H, W>(flags, k - 1);
        lemma_flagged_below_step::<H, W>(flags, k - 1);
    }
}

/// An arena of height `H` and width `W` has exactly `H * W` cells.
pub proof fn lemma_arena_size<const H: u16, const W: u16>()
    ensures
        arena::<H, W>().finite(),
        arena::<H, W>().len() == H * W,
{
    lemma_table_len::<H, W>();
    let flags = Seq::new((H * W) as nat, |i: int| true);
    let all = flagged_below::<H, W>(flags, H * W);
    lemma_flagged_below_len::<H, W>(flags, H * W);
    assert forall|p: Position| arena::<H, W>().contains(p) implies all.contains(p) by {
        lemma_index_in_range::<H, W>(p);
    }
    assert(all =~= arena::<H, W>());
}

/// Occupancy of an arena of height `H` and width `W`: one flag per cell.
#[derive(Clone, Debug, PartialEq, Eq)]
pub struct GridOccupancy<const H: u16, const W: u16> {
    tiles: Vec<bool>,
}

impl<const H: u16, const W: u16> View for GridOccupancy<H, W> {
    type V = Set<Position>;

    /// The cells that are taken.
    closed spec fn view(&self) -> Set<Position> {
        Set::new(|p: Position| in_arena::<H, W>(p) && self.tiles@[cell_index::<W>(p)])
    }
}

impl<const H: u16, const W: u16> GridOccupancy<H, W> {
    /// The table holds exactly one flag per cell of the arena.
    pub closed spec fn wf(&self) -> bool {
        self.tiles@.len() == H * W
    }

    /// Once every place of the table has been looked at, the flagged cells
    /// are the taken cells.
    proof fn lemma_flagged_below_all(&self)
        requires
            self.wf(),
        ensures
            flagged_below::<H, W>(self.tiles@, H * W) == self@,
    {
        let all = flagged_below::<H, W>(self.tiles@, H * W);
        assert forall|p: Position| self@.contains(p) implies all.contains(p) by {
            lemma_index_in_range::<H, W>(p);
        }
        assert(all =~= self@);
    }

    /// Only cells of the arena are ever taken, so the taken cells are finitely
    /// many and no more than the arena holds.
    pub proof fn lemma_view_bounded(&self)
        requires
            self.wf(),
        ensures
            self@.finite(),
            self@.subset_of(arena::<H, W>()),
            self@.len() <= H * W,
    {
        lemma_table_len::<H, W>();
        lemma_flagged_below_len::<H, W>(self.tiles@, H * W);
        self.lemma_flagged_below_all();
    }

    /// A grid with every cell empty.
    pub fn new() -> (grid: Self)
        ensures
            grid.wf(),
            grid@ == Set::<Position>::empty(),
    {
        proof {
            lemma_table_len::<H, W>();
        }
        let cells: usize = H as usize * W as usize;
        let grid = GridOccupancy { tiles: vec![false; cells] };
        proof {
            assert forall|p: Position| !grid@.contains(p) by {
                if in_arena::<H, W>(p) {
                    lemma_index_in_range::<H, W>(p);
                }
            }
            assert(grid@ =~= Set::<Position>::empty());
        }
        grid
    }

    /// Whether `cell` lies inside the arena.
    pub fn in_bounds(cell: Position) -> (inside: bool)
        ensures
            inside == in_arena::<H, W>(cell),
    {
        0 <= cell.x && cell.x < H as i32 && 0 <= cell.y && cell.y < W as i32
    }

    /// Place of `cell` in the table.
    fn index_of(cell: Position) -> (i: usize)
        requires
            in_arena::<H, W>(cell),
        ensures
            i == cell_index::<W>(cell),
            i < H * W,
    {
        proof {
            lemma_table_len::<H, W>();
            lemma_index_in_range::<H, W>(cell);
        }
        cell.x as usize * W as usize + cell.y as usize
    }

    /// Whether `cell` is taken. A position outside the arena is never taken.
    pub fn is_taken(&self, cell: Position) -> (taken: bool)
        requires
            self.wf(),
        ensures
            taken == self@.contains(cell),
    {
        if Self::in_bounds(cell) {
            self.tiles[Self::index_of(cell)]
        } else {
            false
        }
    }

    /// Claims `cell`. An empty cell becomes taken; a taken cell is left as it
    /// is and the call is answered with `Conflict`. The caller checks bounds.
    pub fn occupy(&mut self, cell: Position) -> (outcome: Outcome)
        requires
            old(self).wf(),
            in_arena::<H, W>(cell),
        ensures
            final(self).wf(),
            outcome == occupy_outcome(old(self)@, cell),
            final(self)@ == after_occupy(old(self)@, cell),
            outcome != Outcome::Success ==> *final(self) == *old(self),
    {
        let i: usize = Self::index_of(cell);
        if self.tiles[i] {
            Outcome::Conflict
        } else {
            self.tiles.set(i, true);
            proof {
                assert forall|p: Position|
                    self@.contains(p) == old(self)@.insert(cell).contains(p) by {
                    if in_arena::<H, W>(p) && p != cell {
                        lemma_index_in_range::<H, W>(p);
                        lemma_index_injective::<H, W>(p, cell);
                    }
                }
                assert(self@ =~= old(self)@.insert(cell));
            }
            Outcome::Success
        }
    }

    /// Releases `cell`. A taken cell becomes empty; an empty cell is left as
    /// it is and the call is answered with `AlreadyEmpty`. The caller checks
    /// bounds.
    pub fn vacate(&mut self, cell: Position) -> (outcome: Outcome)
        requires
            old(self).wf(),
            in_arena::<H, W>(cell),
        ensures
            final(self).wf(),
            outcome == vacate_outcome(old(self)@, cell),
            final(self)@ == after_vacate(old(self)@, cell),
            outcome != Outcome::Success ==> *final(self) == *old(self),
    {
        let i: usize = Self::index_of(cell);
        if self.tiles[i] {
            self.tiles.set(i, false);
            proof {
                assert forall|p: Position|
                    self@.contains(p) == old(self)@.remove(cell).contains(p) by {
                    if in_arena::<H, W>(p) && p != cell {
                        lemma_index_in_range::<H, W>(p);
                        lemma_index_injective::<H, W>(p, cell);
                    }
                }
                assert(self@ =~= old(self)@.remove(cell));
            }
            Outcome::Success
        } else {
            Outcome::AlreadyEmpty
        }
    }

    /// Number of taken cells.
    pub fn taken_count(&self) -> (count: usize)
        requires
            self.wf(),
        ensures
            self@.finite(),
            count == self@.len(),
    {
        let mut count: usize = 0;
        let mut i: usize = 0;
        proof {
            lemma_flagged_below_len::<H, W>(self.tiles@, 0);
        }
        while i < self.tiles.len()
            invariant
                self.wf(),
                i <= self.tiles@.len(),
                flagged_below::<H, W>(self.tiles@, i as int).finite(),
                count == flagged_below::<H, W>(self.tiles@, i as int).len(),
                count <= i,
            decreases self.tiles@.len() - i,
        {
            proof {
                lemma_flagged_below_step::<H, W>(self.tiles@, i as int);
            }
            if self.tiles[i] {
                count = count + 1;
            }
            i = i + 1;
        }
        proof {
            self.lemma_flagged_below_all();
        }
        count
    }
}

} // verus!
