//! What holds of a whole run: the driver's position store and the grid stay
//! in step, the number of taken cells is conserved, and a run is determined
//! by its inputs.
//!
//! The position store is modelled as a map from agent identity to position.
//! It belongs to the driver; the statements here say what the driver may rely
//! on when it stores, after every decision, the position that the outcome
//! gives.

use vstd::prelude::*;
use vstd::set_lib::lemma_len_subset;
use crate::arbiter::{arbitrated_outcome, batch_grid, batch_outcomes, MoveOutcome};
use crate::grid::{arena, lemma_arena_size};
use crate::intent::MoveIntent;
use crate::position::Position;
use crate::setup::{lemma_placement_succeeds_iff, placeable, placement_grid};

verus! {

/// The position store and the grid agree: every agent stands on a taken
/// cell, no two agents stand on the same cell, and there are as many taken
/// cells as agents.
pub open spec fn in_sync(taken: Set<Position>, agents: Map<u64, Position>) -> bool {
    &&& taken.finite()
    &&& agents.dom().finite()
    &&& taken.len() == agents.dom().len()
    &&& forall|a: u64| agents.dom().contains(a) ==> taken.contains(#[trigger] agents[a])
    &&& forall|a: u64, b: u64|
        #![trigger agents[a], agents[b]]
        agents.dom().contains(a) && agents.dom().contains(b) && a != b ==> agents[a] != agents[b]
}

/// Whether some request of `intents` is made for agent `a`.
pub open spec fn mentions(intents: Seq<MoveIntent>, a: u64) -> bool {
    exists|i: int| 0 <= i < intents.len() && (#[trigger] intents[i]).agent_id == a
}

/// A tick's batch as the driver is meant to build it: every request is made
/// for a known agent, starts where that agent stands, and no agent submits
/// more than one request.
pub open spec fn valid_batch(agents: Map<u64, Position>, intents: Seq<MoveIntent>) -> bool {
    &&& forall|i: int|
        0 <= i < intents.len() ==> agents.dom().contains((#[trigger] intents[i]).agent_id)
            && intents[i].from == agents[intents[i].agent_id]
    &&& forall|i: int, j: int|
        #![trigger intents[i], intents[j]]
        0 <= i < j < intents.len() ==> intents[i].agent_id != intents[j].agent_id
}

/// The position store after the driver has written back the outcome of every
/// request of `intents`, decided in order on a grid that started as `taken`.
pub open spec fn agents_after<const H: u16, const W: u16>(
    taken: Set<Position>,
    agents: Map<u64, Position>,
    intents: Seq<MoveIntent>,
) -> Map<u64, Position>
    decreases intents.len(),
{
    if intents.len() == 0 {
        agents
    } else {
        let earlier = intents.drop_last();
        let intent = intents.last();
        let outcome = arbitrated_outcome::<H, W>(batch_grid::<H, W>(taken, earlier), intent);
        agents_after::<H, W>(taken, agents, earlier).insert(
            intent.agent_id,
            outcome.position_after(intent),
        )
    }
}

/// The taken cells after the batches of `ticks` were decided one after the
/// other.
pub open spec fn run_grid<const H: u16, const W: u16>(
    taken: Set<Position>,
    ticks: Seq<Seq<MoveIntent>>,
) -> Set<Position>
    decreases ticks.len(),
{
    if ticks.len() == 0 {
        taken
    } else {
        batch_grid::<H, W>(run_grid::<H, W>(taken, ticks.drop_last()), ticks.last())
    }
}

/// The outcomes of every tick of a run, tick by tick.
pub open spec fn run_outcomes<const H: u16, const W: u16>(
    taken: Set<Position>,
    ticks: Seq<Seq<MoveIntent>>,
) -> Seq<Seq<MoveOutcome>>
    decreases ticks.len(),
{
    if ticks.len() == 0 {
        Seq::empty()
    } else {
        run_outcomes::<H, W>(taken, ticks.drop_last()).push(
            batch_outcomes::<H, W>(run_grid::<H, W>(taken, ticks.drop_last()), ticks.last()),
        )
    }
}

/// The position store after every tick of a run, the driver writing back
/// the outcomes of each tick before the next one starts.
pub open spec fn run_agents<const H: u16, const W: u16>(
    taken: Set<Position>,
    agents: Map<u64, Position>,
    ticks: Seq<Seq<MoveIntent>>,
) -> Map<u64, Position>
    decreases ticks.len(),
{
    if ticks.len() == 0 {
        agents
    } else {
        agents_after::<H, W>(
            run_grid::<H, W>(taken, ticks.drop_last()),
            run_agents::<H, W>(taken, agents, ticks.drop_last()),
            ticks.last(),
        )
    }
}

/// A run in which the batch of every tick is built from the position store
/// as the ticks before it left it.
pub open spec fn valid_run<const H: u16, const W: u16>(
    taken: Set<Position>,
    agents: Map<u64, Position>,
    ticks: Seq<Seq<MoveIntent>>,
) -> bool
    decreases ticks.len(),
{
    ticks.len() == 0 || (valid_run::<H, W>(taken, agents, ticks.drop_last()) && valid_batch(
        run_agents::<H, W>(taken, agents, ticks.drop_last()),
        ticks.last(),
    ))
}

/// The position store of agents that were placed on `cells` and are known by
/// their place in that sequence.
pub open spec fn agents_placed_on(cells: Seq<Position>) -> Map<u64, Position> {
    Map::new(|a: u64| a < cells.len(), |a: u64| cells[a as int])
}

/// There are exactly `n` identities below `n`.
proof fn lemma_ids_below(n: nat)
    requires
        n <= u64::MAX,
    ensures
        Set::new(|a: u64| a < n).finite(),
        Set::new(|a: u64| a < n).len() == n,
    decreases n,
{
    let ids = Set::new(|a: u64| a < n);
    if n == 0 {
        assert(ids =~= Set::<u64>::empty());
    } else {
        let fewer = Set::new(|a: u64| a < (n - 1) as nat);
        lemma_ids_below((n - 1) as nat);
        assert(ids =~= fewer.insert((n - 1) as u64));
    }
}

/// One tick, by induction over its batch: agreement is kept, the count of
/// taken cells and the set of agents stay as they were, agents without a
/// request stay where they stood, and no request finds its source empty.
proof fn lemma_batch_in_sync<const H: u16, const W: u16>(
    taken: Set<Position>,
    agents: Map<u64, Position>,
    intents: Seq<MoveIntent>,
)
    requires
        in_sync(taken, agents),
        valid_batch(agents, intents),
    ensures
        in_sync(batch_grid::<H, W>(taken, intents), agents_after::<H, W>(taken, agents, intents)),
        batch_grid::<H, W>(taken, intents).len() == taken.len(),
        agents_after::<H, W>(taken, agents, intents).dom() == agents.dom(),
        forall|a: u64|
            agents.dom().contains(a) && !mentions(intents, a)
                ==> #[trigger] agents_after::<H, W>(taken, agents, intents)[a] == agents[a],
        forall|i: int|
            0 <= i < intents.len() ==> #[trigger] batch_outcomes::<H, W>(taken, intents)[i]
                != MoveOutcome::RejectedSourceAlreadyEmpty,
        batch_outcomes::<H, W>(taken, intents).len() == intents.len(),
    decreases intents.len(),
{
    if intents.len() > 0 {
        let earlier = intents.drop_last();
        let intent = intents.last();
        let id = intent.agent_id;
        assert forall|i: int| 0 <= i < earlier.len() implies #[trigger] earlier[i] == intents[i] by {}
        lemma_batch_in_sync::<H, W>(taken, agents, earlier);

        let grid = batch_grid::<H, W>(taken, earlier);
        let store = agents_after::<H, W>(taken, agents, earlier);
        let outcome = arbitrated_outcome::<H, W>(grid, intent);
        let grid2 = batch_grid::<H, W>(taken, intents);
        let store2 = agents_after::<H, W>(taken, agents, intents);

        // No earlier request of the tick was made for this agent, so it still
        // stands where its request starts, and that cell is taken.
        assert(intent == intents[intents.len() - 1]);
        assert(!mentions(earlier, id));
        assert(store[id] == intent.from);
        assert(grid.contains(store[id]));

        assert(store2.dom() =~= store.dom());
        if outcome == MoveOutcome::Applied(intent.to) && intent.from != intent.to {
            // The agent moves onto a cell that was free, so onto a cell that
            // no other agent stands on; the others stay on cells that are
            // not the one it left.
            assert(in_sync(grid2, store2));
        } else {
            // The request changes neither the grid nor the store.
            assert(store2 =~= store);
        }

        // An agent without a request in the batch had none in its earlier
        // part either.
        assert forall|a: u64| !mentions(intents, a) implies !mentions(earlier, a) && a != id by {
            assert(intents[intents.len() - 1].agent_id != a);
        }
    }
}

/// Uniqueness: when the position store and the grid agree before a tick, and
/// the tick's batch is built from the store, they agree after the tick. In
/// particular no two agents then stand on the same cell, every agent stands
/// on a taken cell, and no decision of the tick reports an empty source.
pub proof fn lemma_tick_keeps_agents_apart<const H: u16, const W: u16>(
    taken: Set<Position>,
    agents: Map<u64, Position>,
    intents: Seq<MoveIntent>,
)
    requires
        in_sync(taken, agents),
        valid_batch(agents, intents),
    ensures
        in_sync(batch_grid::<H, W>(taken, intents), agents_after::<H, W>(taken, agents, intents)),
        agents_after::<H, W>(taken, agents, intents).dom() == agents.dom(),
        forall|i: int|
            0 <= i < intents.len() ==> #[trigger] batch_outcomes::<H, W>(taken, intents)[i]
                != MoveOutcome::RejectedSourceAlreadyEmpty,
{
    lemma_batch_in_sync::<H, W>(taken, agents, intents);
}

/// Conservation: deciding a tick's batch that was built from a position store
/// in agreement with the grid leaves the number of taken cells unchanged.
pub proof fn lemma_tick_conserves_taken_count<const H: u16, const W: u16>(
    taken: Set<Position>,
    agents: Map<u64, Position>,
    intents: Seq<MoveIntent>,
)
    requires
        in_sync(taken, agents),
        valid_batch(agents, intents),
    ensures
        batch_grid::<H, W>(taken, intents).finite(),
        batch_grid::<H, W>(taken, intents).len() == taken.len(),
{
    lemma_batch_in_sync::<H, W>(taken, agents, intents);
}

/// Over a whole run: when the position store and the grid agree at the start
/// and every tick's batch is built from the store, they agree after every
/// tick, and the number of taken cells never changes. The statement is about
/// the end of the run; every shorter run is a run too.
pub proof fn lemma_run_stays_in_sync<const H: u16, const W: u16>(
    taken: Set<Position>,
    agents: Map<u64, Position>,
    ticks: Seq<Seq<MoveIntent>>,
)
    requires
        in_sync(taken, agents),
        valid_run::<H, W>(taken, agents, ticks),
    ensures
        in_sync(run_grid::<H, W>(taken, ticks), run_agents::<H, W>(taken, agents, ticks)),
        run_grid::<H, W>(taken, ticks).len() == taken.len(),
        run_agents::<H, W>(taken, agents, ticks).dom() == agents.dom(),
    decreases ticks.len(),
{
    if ticks.len() > 0 {
        lemma_run_stays_in_sync::<H, W>(taken, agents, ticks.drop_last());
        lemma_batch_in_sync::<H, W>(
            run_grid::<H, W>(taken, ticks.drop_last()),
            run_agents::<H, W>(taken, agents, ticks.drop_last()),
            ticks.last(),
        );
    }
}

/// A placement that succeeded on an empty grid leaves the grid in agreement
/// with the position store of the agents placed.
pub proof fn lemma_placement_in_sync<const H: u16, const W: u16>(cells: Seq<Position>)
    requires
        placeable::<H, W>(Set::empty(), cells),
    ensures
        in_sync(placement_grid::<H, W>(Set::empty(), cells), agents_placed_on(cells)),
        placement_grid::<H, W>(Set::empty(), cells) == cells.to_set(),
        cells.len() <= H * W,
{
    lemma_placement_succeeds_iff::<H, W>(Set::empty(), cells);
    let taken = placement_grid::<H, W>(Set::empty(), cells);
    let agents = agents_placed_on(cells);
    assert(taken =~= cells.to_set());
    cells.unique_seq_to_set();
    // Distinct cells of the arena cannot outnumber the arena.
    lemma_arena_size::<H, W>();
    assert(cells.to_set().subset_of(arena::<H, W>()));
    lemma_len_subset(cells.to_set(), arena::<H, W>());
    assert(H * W <= 0xffff * 0xffff) by (nonlinear_arith)
        requires
            H <= 0xffff,
            W <= 0xffff,
    ;
    lemma_ids_below(cells.len());
    assert(agents.dom() =~= Set::new(|a: u64| a < cells.len()));
    assert forall|a: u64| agents.dom().contains(a) implies taken.contains(#[trigger] agents[a]) by {
        assert(cells[a as int] == agents[a]);
    }
}

/// Determinism: two runs that start from the same placements and are handed
/// the same batches, tick by tick and request by request, produce the same
/// outcomes and end with the same cells taken.
pub proof fn lemma_run_is_determined<const H: u16, const W: u16>(
    cells1: Seq<Position>,
    cells2: Seq<Position>,
    ticks1: Seq<Seq<MoveIntent>>,
    ticks2: Seq<Seq<MoveIntent>>,
)
    requires
        cells1.len() == cells2.len(),
        forall|i: int| 0 <= i < cells1.len() ==> cells1[i] == cells2[i],
        ticks1.len() == ticks2.len(),
        forall|t: int| 0 <= t < ticks1.len() ==> (#[trigger] ticks1[t]).len() == ticks2[t].len(),
        forall|t: int, i: int|
            0 <= t < ticks1.len() && 0 <= i < ticks1[t].len() ==> #[trigger] ticks1[t][i]
                == ticks2[t][i],
    ensures
        placement_grid::<H, W>(Set::empty(), cells1) == placement_grid::<H, W>(
            Set::empty(),
            cells2,
        ),
        run_outcomes::<H, W>(placement_grid::<H, W>(Set::empty(), cells1), ticks1)
            == run_outcomes::<H, W>(placement_grid::<H, W>(Set::empty(), cells2), ticks2),
        run_grid::<H, W>(placement_grid::<H, W>(Set::empty(), cells1), ticks1) == run_grid::<H, W>(
            placement_grid::<H, W>(Set::empty(), cells2),
            ticks2,
        ),
{
    assert(cells1 =~= cells2);
    assert forall|t: int| 0 <= t < ticks1.len() implies #[trigger] ticks1[t] == ticks2[t] by {
        assert(ticks1[t] =~= ticks2[t]);
    }
    assert(ticks1 =~= ticks2);
}

} // verus!
