//! Whole games: what holds however long a game is played, and whatever
//! happens in it.

use vstd::prelude::*;
use crate::asteroid::Heading;
use crate::game::{lemma_frame_never_heals, lemma_spawn_adds_one, GameState};
use crate::health::HIT_COOLDOWN;
use crate::input::KeysHeld;

verus! {

/// One thing that happens in a game.
pub enum Step {
    /// A frame of `dt` microseconds with `keys` held.
    Frame { dt: nat, keys: KeysHeld },
    /// A new asteroid of the given radius in direction `heading`.
    Spawn { radius: int, heading: Heading },
}

/// The game after one step. An asteroid for which no identifier is left does
/// not appear.
pub open spec fn after_step(state: GameState, step: Step) -> GameState {
    match step {
        Step::Frame { dt, keys } => state.frame(dt, keys),
        Step::Spawn { radius, heading } => if state.spawn_fits() {
            state.spawned(radius, heading)
        } else {
            state
        },
    }
}

/// The game after each of `steps`, in turn.
pub open spec fn played(state: GameState, steps: Seq<Step>) -> GameState
    decreases steps.len(),
{
    if steps.len() == 0 {
        state
    } else {
        played(after_step(state, steps.first()), steps.drop_first())
    }
}

/// The times on the game's clock, in turn, at which a step took health from
/// the ship.
pub open spec fn damage_moments(state: GameState, steps: Seq<Step>) -> Seq<nat>
    decreases steps.len(),
{
    if steps.len() == 0 {
        Seq::empty()
    } else {
        let next = after_step(state, steps.first());
        let rest = damage_moments(next, steps.drop_first());
        if next.health.health < state.health.health {
            seq![next.time] + rest
        } else {
            rest
        }
    }
}

/// A step keeps the game well formed. It leaves the health as it is or
/// reports one hit at the time that the clock then shows, the clock does not
/// run backwards, and the asteroids that are there stay, under their
/// identifiers.
pub proof fn lemma_step_keeps_well_formed(state: GameState, step: Step)
    requires
        state.wf(),
    ensures
        after_step(state, step).wf(),
        after_step(state, step).time >= state.time,
        after_step(state, step).health == state.health || after_step(state, step).health
            == state.health.hit(after_step(state, step).time),
        after_step(state, step).health.health <= state.health.health,
        state.health.dead ==> after_step(state, step).health == state.health,
        after_step(state, step).rocks.len() >= state.rocks.len(),
        forall|k: int|
            0 <= k < state.rocks.len() ==> {
                &&& (#[trigger] after_step(state, step).rocks[k]).id == state.rocks[k].id
                &&& after_step(state, step).rocks[k].radius == state.rocks[k].radius
                &&& state.rocks[k].dead ==> after_step(state, step).rocks[k].dead
            },
{
    match step {
        Step::Frame { dt, keys } => {
            lemma_frame_never_heals(state, dt, keys);
        },
        Step::Spawn { radius, heading } => {
            if state.spawn_fits() {
                lemma_spawn_adds_one(state, radius, heading);
            }
        },
    }
}

/// However a game is played, it stays well formed: health lies between zero
/// and the maximum and never rises, a dead ship stays dead with its health
/// untouched, the clock does not run backwards, and every asteroid keeps
/// its place, its identifier and its radius, and stays dead once it is.
pub proof fn lemma_play_keeps_well_formed(state: GameState, steps: Seq<Step>)
    requires
        state.wf(),
    ensures
        played(state, steps).wf(),
        played(state, steps).time >= state.time,
        played(state, steps).health.health <= state.health.health,
        state.health.dead ==> played(state, steps).health == state.health,
        played(state, steps).rocks.len() >= state.rocks.len(),
        forall|k: int|
            0 <= k < state.rocks.len() ==> {
                &&& (#[trigger] played(state, steps).rocks[k]).id == state.rocks[k].id
                &&& played(state, steps).rocks[k].radius == state.rocks[k].radius
                &&& state.rocks[k].dead ==> played(state, steps).rocks[k].dead
            },
    decreases steps.len(),
{
    if steps.len() > 0 {
        let next = after_step(state, steps.first());
        lemma_step_keeps_well_formed(state, steps.first());
        lemma_play_keeps_well_formed(next, steps.drop_first());
        let end = played(state, steps);
        assert forall|k: int| 0 <= k < state.rocks.len() implies {
            &&& (#[trigger] end.rocks[k]).id == state.rocks[k].id
            &&& end.rocks[k].radius == state.rocks[k].radius
            &&& state.rocks[k].dead ==> end.rocks[k].dead
        } by {
            assert(next.rocks[k].id == state.rocks[k].id);
        }
    }
}

/// Nothing takes health from a dead ship.
pub proof fn lemma_no_damage_after_death(state: GameState, steps: Seq<Step>)
    requires
        state.wf(),
        state.health.dead,
    ensures
        damage_moments(state, steps).len() == 0,
    decreases steps.len(),
{
    if steps.len() > 0 {
        lemma_step_keeps_well_formed(state, steps.first());
        lemma_no_damage_after_death(after_step(state, steps.first()), steps.drop_first());
    }
}

/// However a game is played, and however many asteroids hit at once, any two
/// moments at which the ship lost health are more than the cooldown apart,
/// and each of them is more than the cooldown after the damage that was on
/// record when play began.
pub proof fn lemma_play_damage_spaced(state: GameState, steps: Seq<Step>)
    requires
        state.wf(),
    ensures
        forall|i: int, j: int|
            0 <= i < j < damage_moments(state, steps).len() ==> damage_moments(state, steps)[j]
                - damage_moments(state, steps)[i] > HIT_COOLDOWN,
        forall|j: int|
            0 <= j < damage_moments(state, steps).len() ==> state.health.counts(
                #[trigger] damage_moments(state, steps)[j],
            ),
    decreases steps.len(),
{
    if steps.len() > 0 {
        let next = after_step(state, steps.first());
        let rest = damage_moments(next, steps.drop_first());
        lemma_step_keeps_well_formed(state, steps.first());
        lemma_play_damage_spaced(next, steps.drop_first());
        if next.health.health < state.health.health {
            if next.health.dead {
                lemma_no_damage_after_death(next, steps.drop_first());
            }
            // This moment comes first, and the next one had to wait for the
            // cooldown that it started.
            let all = damage_moments(state, steps);
            assert forall|j: int| 0 < j < all.len() implies all[j] == rest[j - 1] by {}
            assert forall|j: int| 0 <= j < rest.len() implies rest[j] - next.time
                > HIT_COOLDOWN by {}
        }
    }
}

} // verus!
