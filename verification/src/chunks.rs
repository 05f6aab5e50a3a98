//! Chunks of terrain that are to be generated.

use crate::geometry::Vec2i;
use crate::state::{Entity, State};
use vstd::prelude::*;

verus! {

/// A chunk to be generated, and the entity it is wanted by if there is one.
#[derive(Clone, Copy, Debug, PartialEq, Eq, Structural)]
pub struct ChunkJob {
    pub requester: Option<Entity>,
    pub key: Vec2i,
}

/// A step of making the terrain anew.
#[derive(Clone, Copy, Debug, PartialEq, Eq, Structural)]
pub enum ReloadStep {
    /// Give up on every chunk that is being generated.
    CancelAll,
    /// Unload the whole terrain.
    ClearTerrain,
    Generate(ChunkJob),
}

/// The steps that generate the chunks under `keys`, one after the other.
pub open spec fn regeneration(keys: Seq<Vec2i>) -> Seq<ReloadStep> {
    keys.map_values(|key: Vec2i| ReloadStep::Generate(ChunkJob { requester: None, key }))
}

/// The steps that make the terrain anew. If nobody is connected it is unloaded,
/// otherwise each of its chunks is generated again.
pub open spec fn reload(state: State) -> Seq<ReloadStep> {
    if state.clients() == 0 {
        seq![ReloadStep::CancelAll, ReloadStep::ClearTerrain]
    } else {
        seq![ReloadStep::CancelAll] + regeneration(state.terrain.loaded@)
    }
}

/// The steps that make the terrain anew, in this order.
pub fn reload_steps(state: &State) -> (steps: Vec<ReloadStep>)
    ensures
        steps@ == reload(*state),
{
    let mut steps: Vec<ReloadStep> = Vec::new();
    steps.push(ReloadStep::CancelAll);
    if state.count() == 0 {
        steps.push(ReloadStep::ClearTerrain);
        assert(steps@ =~= reload(*state));
    } else {
        let mut i: usize = 0;
        while i < state.terrain.loaded.len()
            invariant
                i <= state.terrain.loaded@.len(),
                steps@ =~= seq![ReloadStep::CancelAll] + regeneration(
                    state.terrain.loaded@.take(i as int),
                ),
            decreases state.terrain.loaded@.len() - i,
        {
            let key = state.terrain.loaded[i];
            steps.push(ReloadStep::Generate(ChunkJob { requester: None, key }));
            i = i + 1;
        }
        assert(state.terrain.loaded@.take(state.terrain.loaded@.len() as int)
            =~= state.terrain.loaded@);
    }
    steps
}

/// Whoever makes the terrain anew first gives up on the chunks in the making.
/// Terrain is unloaded only while nobody is connected; otherwise just the loaded
/// chunks are generated, each in its turn.
pub proof fn reload_spares_the_connected(state: State)
    ensures
        reload(state)[0] == ReloadStep::CancelAll,
        reload(state).contains(ReloadStep::ClearTerrain) <==> state.clients() == 0,
        state.clients() > 0 ==> reload(state).len() == state.terrain.loaded@.len() + 1,
        state.clients() > 0 ==> forall|i: int|
            0 <= i < state.terrain.loaded@.len() ==> #[trigger] reload(state)[i + 1]
                == ReloadStep::Generate(
                ChunkJob { requester: None, key: state.terrain.loaded@[i] },
            ),
{
    if state.clients() == 0 {
        assert(reload(state)[1] == ReloadStep::ClearTerrain);
    }
}

/// The whole of what is done to make the terrain anew.
pub proof fn reload_is_exact(state: State)
    ensures
        state.clients() == 0 ==> reload(state) == seq![
            ReloadStep::CancelAll,
            ReloadStep::ClearTerrain,
        ],
        state.clients() > 0 ==> reload(state) == seq![ReloadStep::CancelAll] + Seq::new(
            state.terrain.loaded@.len(),
            |i: int|
                ReloadStep::Generate(
                    ChunkJob { requester: None, key: state.terrain.loaded@[i] },
                ),
        ),
{
    assert(state.clients() > 0 ==> reload(state) =~= seq![ReloadStep::CancelAll] + Seq::new(
        state.terrain.loaded@.len(),
        |i: int|
            ReloadStep::Generate(ChunkJob { requester: None, key: state.terrain.loaded@[i] }),
    ));
}

} // verus!
