//! Agents and the move requests they submit.

use vstd::prelude::*;
use crate::position::{Direction, Position};
use crate::random::random_byte;

verus! {

/// An agent as the arbiter sees it: an opaque identity and the cell the driver
/// currently stores for it.
#[derive(Clone, Copy, Debug, PartialEq, Eq, Hash, Structural)]
pub struct Agent {
    pub id: u64,
    pub position: Position,
}

/// A request to relocate one agent during the current tick.
#[derive(Clone, Copy, Debug, PartialEq, Eq, Hash, Structural)]
pub struct MoveIntent {
    pub agent_id: u64,
    pub from: Position,
    pub to: Position,
}

impl Agent {
    /// Whether the agent can step in every direction without leaving the
    /// range of `i32`. Every agent on a grid can.
    pub open spec fn can_move(self) -> bool {
        &&& i32::MIN < self.position.x < i32::MAX
        &&& i32::MIN < self.position.y < i32::MAX
    }

    /// The request that the agent submits when it wants to go in direction `d`.
    pub open spec fn intent_towards(self, d: Direction) -> MoveIntent {
        MoveIntent { agent_id: self.id, from: self.position, to: self.position.stepped(d) }
    }

    /// Whether `intent` is a request of this agent, from where it stands, to
    /// one of the four neighbouring positions.
    pub open spec fn is_proposal(self, intent: MoveIntent) -> bool {
        ||| intent == self.intent_towards(Direction::PlusX)
        ||| intent == self.intent_towards(Direction::MinusX)
        ||| intent == self.intent_towards(Direction::PlusY)
        ||| intent == self.intent_towards(Direction::MinusY)
    }

    /// Builds the agent's move request for direction `d`.
    pub fn propose(&self, d: Direction) -> (intent: MoveIntent)
        requires
            self.position.can_step(d),
        ensures
            intent == self.intent_towards(d),
    {
        MoveIntent { agent_id: self.id, from: self.position, to: self.position.step(d) }
    }

    /// Builds the agent's move request for a direction drawn at random. The
    /// request always asks for one of the four neighbouring positions, never
    /// for staying.
    pub fn random_intent(&self) -> (intent: MoveIntent)
        requires
            self.can_move(),
        ensures
            self.is_proposal(intent),
    {
        let roll: u8 = random_byte();
        self.propose(Direction::from_roll(roll))
    }
}

/// Builds one random move request per agent, in the order of `agents`.
pub fn random_intents(agents: &Vec<Agent>) -> (intents: Vec<MoveIntent>)
    requires
        forall|i: int| 0 <= i < agents@.len() ==> (#[trigger] agents@[i]).can_move(),
    ensures
        intents@.len() == agents@.len(),
        forall|i: int| 0 <= i < agents@.len() ==> agents@[i].is_proposal(#[trigger] intents@[i]),
{
    let mut intents: Vec<MoveIntent> = Vec::new();
    let mut i: usize = 0;
    while i < agents.len()
        invariant
            i <= agents@.len(),
            intents@.len() == i,
            forall|k: int| 0 <= k < agents@.len() ==> (#[trigger] agents@[k]).can_move(),
            forall|k: int| 0 <= k < i ==> agents@[k].is_proposal(#[trigger] intents@[k]),
        decreases agents@.len() - i,
    {
        let intent: MoveIntent = agents[i].random_intent();
        intents.push(intent);
        i = i + 1;
    }
    intents
}

} // verus!
