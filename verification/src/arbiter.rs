//! Arbitration of move requests against the occupancy grid.
//!
//! Requests are decided one at a time, in the order in which they are handed
//! in: each one sees the grid as the requests before it left it.

use vstd::prelude::*;
use crate::grid::{in_arena, GridOccupancy, Outcome};
use crate::intent::MoveIntent;
use crate::position::Position;

verus! {

/// Result of arbitrating one move request.
#[derive(Clone, Copy, Debug, PartialEq, Eq, Hash, Structural)]
pub enum MoveOutcome {
    /// The agent now stands on the given cell.
    Applied(Position),
    /// The target lies outside the arena; nothing changed.
    RejectedOutOfBounds,
    /// The target was already taken; nothing changed.
    RejectedTargetOccupied,
    /// The target was claimed, but the cell the agent came from was not taken:
    /// the driver's positions and the grid had drifted apart. The claim on the
    /// target stands.
    RejectedSourceAlreadyEmpty,
}

/// The decision on `intent` when the cells in `taken` are taken.
///
/// A target outside the arena is refused first. A request to stay on the spot
/// is granted without looking at the grid. Otherwise the target must be free;
/// only then is the source looked at.
pub open spec fn arbitrated_outcome<const H: u16, const W: u16>(
    taken: Set<Position>,
    intent: MoveIntent,
) -> MoveOutcome {
    if !in_arena::<H, W>(intent.to) {
        MoveOutcome::RejectedOutOfBounds
    } else if intent.from == intent.to {
        MoveOutcome::Applied(intent.from)
    } else if taken.contains(intent.to) {
        MoveOutcome::RejectedTargetOccupied
    } else if !taken.contains(intent.from) {
        MoveOutcome::RejectedSourceAlreadyEmpty
    } else {
        MoveOutcome::Applied(intent.to)
    }
}

/// The taken cells after `intent` was decided.
///
/// The target is claimed before the source is released, and a claim is never
/// taken back.
pub open spec fn arbitrated_grid<const H: u16, const W: u16>(
    taken: Set<Position>,
    intent: MoveIntent,
) -> Set<Position> {
    if !in_arena::<H, W>(intent.to) || intent.from == intent.to || taken.contains(intent.to) {
        taken
    } else {
        taken.insert(intent.to).remove(intent.from)
    }
}

/// The taken cells after all of `intents` were decided in order.
pub open spec fn batch_grid<const H: u16, const W: u16>(
    taken: Set<Position>,
    intents: Seq<MoveIntent>,
) -> Set<Position>
    decreases intents.len(),
{
    if intents.len() == 0 {
        taken
    } else {
        arbitrated_grid::<H, W>(batch_grid::<H, W>(taken, intents.drop_last()), intents.last())
    }
}

/// The decisions on `intents`, in order, each taken on the grid as the
/// requests before it left it.
pub open spec fn batch_outcomes<const H: u16, const W: u16>(
    taken: Set<Position>,
    intents: Seq<MoveIntent>,
) -> Seq<MoveOutcome>
    decreases intents.len(),
{
    if intents.len() == 0 {
        Seq::empty()
    } else {
        batch_outcomes::<H, W>(taken, intents.drop_last()).push(
            arbitrated_outcome::<H, W>(
                batch_grid::<H, W>(taken, intents.drop_last()),
                intents.last(),
            ),
        )
    }
}

impl MoveOutcome {
    /// Where the agent that submitted `intent` stands after this outcome.
    ///
    /// A refused move leaves it where it was. When only the release of the
    /// source failed, the agent still moves: the target was claimed for it.
    pub open spec fn position_after(self, intent: MoveIntent) -> Position {
        match self {
            MoveOutcome::Applied(p) => p,
            MoveOutcome::RejectedOutOfBounds => intent.from,
            MoveOutcome::RejectedTargetOccupied => intent.from,
            MoveOutcome::RejectedSourceAlreadyEmpty => intent.to,
        }
    }

    /// The line to report for this outcome, if it calls for one.
    pub open spec fn diagnostic_text(self) -> Option<&'static str> {
        match self {
            MoveOutcome::Applied(_) => None,
            MoveOutcome::RejectedOutOfBounds => Some("Move action denied"),
            MoveOutcome::RejectedTargetOccupied => Some("Moving in conflict"),
            MoveOutcome::RejectedSourceAlreadyEmpty => Some("Moving out from empty tile"),
        }
    }

    /// The line to report for this outcome: none for an applied move.
    pub fn diagnostic(&self) -> (line: Option<&'static str>)
        ensures
            line == self.diagnostic_text(),
    {
        match self {
            MoveOutcome::Applied(_) => None,
            MoveOutcome::RejectedOutOfBounds => Some("Move action denied"),
            MoveOutcome::RejectedTargetOccupied => Some("Moving in conflict"),
            MoveOutcome::RejectedSourceAlreadyEmpty => Some("Moving out from empty tile"),
        }
    }

    /// The position to store for the agent that submitted `intent`.
    pub fn new_position(&self, intent: &MoveIntent) -> (p: Position)
        ensures
            p == self.position_after(*intent),
    {
        match self {
            MoveOutcome::Applied(p) => *p,
            MoveOutcome::RejectedOutOfBounds => intent.from,
            MoveOutcome::RejectedTargetOccupied => intent.from,
            MoveOutcome::RejectedSourceAlreadyEmpty => intent.to,
        }
    }
}

/// A target outside the arena is always refused, and the refusal changes
/// neither the grid nor the agent's position. This holds in particular for a
/// target one step beyond any of the four edges.
pub proof fn lemma_out_of_bounds_refused<const H: u16, const W: u16>(
    taken: Set<Position>,
    intent: MoveIntent,
)
    requires
        !in_arena::<H, W>(intent.to) || intent.to.x == -1 || intent.to.x == H || intent.to.y == -1
            || intent.to.y == W,
    ensures
        arbitrated_outcome::<H, W>(taken, intent) == MoveOutcome::RejectedOutOfBounds,
        arbitrated_grid::<H, W>(taken, intent) == taken,
        arbitrated_outcome::<H, W>(taken, intent).position_after(intent) == intent.from,
{
}

/// A request to stay on a cell of the arena is always granted, with that
/// cell as the agent's position, and changes nothing on the grid.
pub proof fn lemma_null_move_changes_nothing<const H: u16, const W: u16>(
    taken: Set<Position>,
    intent: MoveIntent,
)
    requires
        intent.from == intent.to,
        in_arena::<H, W>(intent.to),
    ensures
        arbitrated_outcome::<H, W>(taken, intent) == MoveOutcome::Applied(intent.from),
        arbitrated_grid::<H, W>(taken, intent) == taken,
{
}

/// Decides one move request and updates the grid accordingly.
pub fn arbitrate<const H: u16, const W: u16>(
    grid: &mut GridOccupancy<H, W>,
    intent: &MoveIntent,
) -> (outcome: MoveOutcome)
    requires
        old(grid).wf(),
    ensures
        final(grid).wf(),
        outcome == arbitrated_outcome::<H, W>(old(grid)@, *intent),
        final(grid)@ == arbitrated_grid::<H, W>(old(grid)@, *intent),
        (outcome == MoveOutcome::RejectedOutOfBounds || outcome
            == MoveOutcome::RejectedTargetOccupied || intent.from == intent.to) ==> *final(grid)
            == *old(grid),
{
    if !GridOccupancy::<H, W>::in_bounds(intent.to) {
        return MoveOutcome::RejectedOutOfBounds;
    }
    if intent.from == intent.to {
        return MoveOutcome::Applied(intent.from);
    }
    match grid.occupy(intent.to) {
        Outcome::Success => {},
        _ => {
            return MoveOutcome::RejectedTargetOccupied;
        },
    }
    let released: Outcome = if GridOccupancy::<H, W>::in_bounds(intent.from) {
        grid.vacate(intent.from)
    } else {
        proof {
            // No position outside the arena is ever taken.
            old(grid).lemma_view_bounded();
        }
        Outcome::AlreadyEmpty
    };
    match released {
        Outcome::Success => MoveOutcome::Applied(intent.to),
        _ => MoveOutcome::RejectedSourceAlreadyEmpty,
    }
}

/// Decides a tick's move requests in order and returns one outcome per
/// request, in the same order.
pub fn arbitrate_all<const H: u16, const W: u16>(
    grid: &mut GridOccupancy<H, W>,
    intents: &Vec<MoveIntent>,
) -> (outcomes: Vec<MoveOutcome>)
    requires
        old(grid).wf(),
    ensures
        final(grid).wf(),
        outcomes@.len() == intents@.len(),
        outcomes@ == batch_outcomes::<H, W>(old(grid)@, intents@),
        final(grid)@ == batch_grid::<H, W>(old(grid)@, intents@),
{
    let mut outcomes: Vec<MoveOutcome> = Vec::new();
    let mut i: usize = 0;
    while i < intents.len()
        invariant
            grid.wf(),
            i <= intents@.len(),
            outcomes@.len() == i,
            outcomes@ == batch_outcomes::<H, W>(old(grid)@, intents@.take(i as int)),
            grid@ == batch_grid::<H, W>(old(grid)@, intents@.take(i as int)),
        decreases intents@.len() - i,
    {
        proof {
            assert(intents@.take(i + 1).drop_last() =~= intents@.take(i as int));
        }
        let outcome: MoveOutcome = arbitrate(grid, &intents[i]);
        outcomes.push(outcome);
        i = i + 1;
    }
    proof {
        assert(intents@.take(i as int) =~= intents@);
    }
    outcomes
}

} // verus!
