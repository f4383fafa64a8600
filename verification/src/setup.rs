//! Initial placement of agents on the grid.
//!
//! Starting cells must lie inside the arena and must not overlap. The first
//! cell that breaks either rule ends the placement with an error, which the
//! caller is expected to treat as fatal.

use vstd::prelude::*;
use crate::grid::{in_arena, GridOccupancy, Outcome};
use crate::position::Position;
use crate::random::{gen_range, thread_rng};

verus! {

/// Number of agents of the default simulation.
pub const AGENT_COUNT: u32 = 20;

/// Why a starting cell could not be used.
#[derive(Clone, Copy, Debug, PartialEq, Eq, Hash, Structural)]
pub enum SetupError {
    /// The cell lies outside the arena.
    OutOfBounds(Position),
    /// The cell is already taken.
    Overlap(Position),
}

/// The answer to placing one agent on `cell` when the cells in `taken` are
/// taken.
pub open spec fn place_result<const H: u16, const W: u16>(
    taken: Set<Position>,
    cell: Position,
) -> Result<(), SetupError> {
    if !in_arena::<H, W>(cell) {
        Err(SetupError::OutOfBounds(cell))
    } else if taken.contains(cell) {
        Err(SetupError::Overlap(cell))
    } else {
        Ok(())
    }
}

/// The answer to placing one agent on each of `cells`, in order, stopping at
/// the first cell that cannot be used.
pub open spec fn placement_result<const H: u16, const W: u16>(
    taken: Set<Position>,
    cells: Seq<Position>,
) -> Result<(), SetupError>
    decreases cells.len(),
{
    if cells.len() == 0 {
        Ok(())
    } else if place_result::<H, W>(taken, cells.first()) is Err {
        place_result::<H, W>(taken, cells.first())
    } else {
        placement_result::<H, W>(taken.insert(cells.first()), cells.drop_first())
    }
}

/// The taken cells after placing one agent on each of `cells`, in order,
/// stopping at the first cell that cannot be used. Cells placed before the
/// stop stay taken.
pub open spec fn placement_grid<const H: u16, const W: u16>(
    taken: Set<Position>,
    cells: Seq<Position>,
) -> Set<Position>
    decreases cells.len(),
{
    if cells.len() == 0 || place_result::<H, W>(taken, cells.first()) is Err {
        taken
    } else {
        placement_grid::<H, W>(taken.insert(cells.first()), cells.drop_first())
    }
}

/// Whether every one of `cells` can be placed: all lie inside the arena, none
/// is taken, and no two are the same.
pub open spec fn placeable<const H: u16, const W: u16>(
    taken: Set<Position>,
    cells: Seq<Position>,
) -> bool {
    &&& forall|i: int| 0 <= i < cells.len() ==> in_arena::<H, W>(#[trigger] cells[i])
    &&& forall|i: int| 0 <= i < cells.len() ==> !taken.contains(#[trigger] cells[i])
    &&& cells.no_duplicates()
}

/// Placement succeeds exactly on cells that are inside the arena, free and
/// pairwise distinct, and then takes exactly those cells in addition.
pub proof fn lemma_placement_succeeds_iff<const H: u16, const W: u16>(
    taken: Set<Position>,
    cells: Seq<Position>,
)
    ensures
        placement_result::<H, W>(taken, cells) is Ok <==> placeable::<H, W>(taken, cells),
        placement_result::<H, W>(taken, cells) is Ok ==> placement_grid::<H, W>(taken, cells)
            == taken.union(cells.to_set()),
    decreases cells.len(),
{
    if cells.len() > 0 {
        let head = cells.first();
        let rest = cells.drop_first();
        lemma_placement_succeeds_iff::<H, W>(taken.insert(head), rest);
        // Every cell but the first is a cell of `rest`, one place earlier.
        assert forall|i: int| 0 < i < cells.len() implies #[trigger] cells[i] == rest[i - 1] by {}
        assert forall|i: int| 0 <= i < rest.len() implies #[trigger] rest[i] == cells[i + 1] by {}
        if placement_result::<H, W>(taken, cells) is Ok {
            assert(placeable::<H, W>(taken, cells));
            assert(taken.insert(head).union(rest.to_set()) =~= taken.union(cells.to_set()));
        }
        if placeable::<H, W>(taken, cells) {
            assert(placeable::<H, W>(taken.insert(head), rest));
        }
    } else {
        assert(taken.union(cells.to_set()) =~= taken);
    }
}

/// Places one agent on `cell`. The grid changes only on success.
pub fn place<const H: u16, const W: u16>(
    grid: &mut GridOccupancy<H, W>,
    cell: Position,
) -> (r: Result<(), SetupError>)
    requires
        old(grid).wf(),
    ensures
        final(grid).wf(),
        r == place_result::<H, W>(old(grid)@, cell),
        r is Ok ==> final(grid)@ == old(grid)@.insert(cell),
        r is Err ==> *final(grid) == *old(grid),
{
    if !GridOccupancy::<H, W>::in_bounds(cell) {
        return Err(SetupError::OutOfBounds(cell));
    }
    match grid.occupy(cell) {
        Outcome::Success => Ok(()),
        _ => Err(SetupError::Overlap(cell)),
    }
}

/// Places one agent on each of `cells`, in order, and stops at the first cell
/// that lies outside the arena or is already taken.
pub fn place_all<const H: u16, const W: u16>(
    grid: &mut GridOccupancy<H, W>,
    cells: &Vec<Position>,
) -> (r: Result<(), SetupError>)
    requires
        old(grid).wf(),
    ensures
        final(grid).wf(),
        r == placement_result::<H, W>(old(grid)@, cells@),
        final(grid)@ == placement_grid::<H, W>(old(grid)@, cells@),
        r is Ok <==> placeable::<H, W>(old(grid)@, cells@),
        r is Ok ==> final(grid)@ == old(grid)@.union(cells@.to_set()),
{
    proof {
        lemma_placement_succeeds_iff::<H, W>(old(grid)@, cells@);
        assert(cells@.skip(0) =~= cells@);
    }
    let mut i: usize = 0;
    while i < cells.len()
        invariant
            grid.wf(),
            placement_result::<H, W>(old(grid)@, cells@) is Ok <==> placeable::<H, W>(
                old(grid)@,
                cells@,
            ),
            placement_result::<H, W>(old(grid)@, cells@) is Ok ==> placement_grid::<H, W>(
                old(grid)@,
                cells@,
            ) == old(grid)@.union(cells@.to_set()),
            i <= cells@.len(),
            placement_result::<H, W>(old(grid)@, cells@) == placement_result::<H, W>(
                grid@,
                cells@.skip(i as int),
            ),
            placement_grid::<H, W>(old(grid)@, cells@) == placement_grid::<H, W>(
                grid@,
                cells@.skip(i as int),
            ),
        decreases cells@.len() - i,
    {
        proof {
            assert(cells@.skip(i as int).drop_first() =~= cells@.skip(i + 1));
        }
        match place(grid, cells[i]) {
            Ok(()) => {},
            Err(e) => {
                return Err(e);
            },
        }
        i = i + 1;
    }
    Ok(())
}

/// Draws one cell of the arena at random.
fn random_cell<const H: u16, const W: u16>(rng: &mut rand::rngs::ThreadRng) -> (cell: Position)
    requires
        H > 0,
        W > 0,
    ensures
        in_arena::<H, W>(cell),
{
    let x: i32 = gen_range(rng, 0, H as i32);
    let y: i32 = gen_range(rng, 0, W as i32);
    Position { x, y }
}

/// Draws `count` cells of the arena at random. The cells need not be
/// distinct. An arena without cells has none to draw.
pub fn random_cells<const H: u16, const W: u16>(count: u32) -> (cells: Vec<Position>)
    requires
        count > 0 ==> H > 0 && W > 0,
    ensures
        cells@.len() == count,
        forall|i: int| 0 <= i < cells@.len() ==> in_arena::<H, W>(#[trigger] cells@[i]),
{
    let mut rng = thread_rng();
    let mut cells: Vec<Position> = Vec::new();
    let mut n: u32 = 0;
    while n < count
        invariant
            count > 0 ==> H > 0 && W > 0,
            n <= count,
            cells@.len() == n,
            forall|i: int| 0 <= i < cells@.len() ==> in_arena::<H, W>(#[trigger] cells@[i]),
        decreases count - n,
    {
        let cell: Position = random_cell::<H, W>(&mut rng);
        cells.push(cell);
        n = n + 1;
    }
    cells
}

/// Draws `count` starting cells at random and places one agent on each, in
/// the order drawn. Returns the cells drawn together with the answer of the
/// placement: two draws of the same cell end it with `Overlap`.
pub fn populate<const H: u16, const W: u16>(
    grid: &mut GridOccupancy<H, W>,
    count: u32,
) -> (r: (Vec<Position>, Result<(), SetupError>))
    requires
        old(grid).wf(),
        count > 0 ==> H > 0 && W > 0,
    ensures
        final(grid).wf(),
        r.0@.len() == count,
        forall|i: int| 0 <= i < r.0@.len() ==> in_arena::<H, W>(#[trigger] r.0@[i]),
        r.1 == placement_result::<H, W>(old(grid)@, r.0@),
        final(grid)@ == placement_grid::<H, W>(old(grid)@, r.0@),
        r.1 is Ok <==> placeable::<H, W>(old(grid)@, r.0@),
        r.1 is Ok ==> final(grid)@ == old(grid)@.union(r.0@.to_set()),
        count == 0 ==> r.1 is Ok,
{
    let cells: Vec<Position> = random_cells::<H, W>(count);
    let placed: Result<(), SetupError> = place_all(grid, &cells);
    (cells, placed)
}

} // verus!
