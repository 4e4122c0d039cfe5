//! The ship's health: qualifying hits take it down step by step, no faster
//! than the cooldown allows, until the ship is dead.

use vstd::prelude::*;

verus! {

/// Health of a ship that has taken no damage.
pub const MAX_HEALTH: u32 = 100;

/// Health that one damage event takes away.
pub const HIT_DAMAGE: u32 = 10;

/// Microseconds that have to pass after a recorded damage event before the
/// next hit counts.
pub const HIT_COOLDOWN: u64 = 700_000;

/// Value of the health bar's horizontal scale that stands for a full bar.
pub const FULL_SCALE: u32 = 1_000_000;

/// The mathematical model of [`Health`].
pub struct HealthState {
    /// Current health.
    pub health: nat,
    /// The health that the bar shows.
    pub shown: nat,
    /// Time of the damage event that was recorded last, if there was one.
    pub last_damage: Option<nat>,
    /// Whether the ship is dead.
    pub dead: bool,
}

impl HealthState {
    /// What holds of every state that the game reaches: health lies between
    /// zero and the maximum, the ship is dead exactly when it is zero, and
    /// the bar of a living ship shows its health.
    pub open spec fn wf(self) -> bool {
        &&& self.health <= MAX_HEALTH
        &&& self.shown <= MAX_HEALTH
        &&& self.dead <==> self.health == 0
        &&& !self.dead ==> self.shown == self.health
    }

    /// The state in which a game starts: full health, a full bar, no damage
    /// recorded.
    pub open spec fn full() -> HealthState {
        HealthState {
            health: MAX_HEALTH as nat,
            shown: MAX_HEALTH as nat,
            last_damage: None,
            dead: false,
        }
    }

    /// Whether a hit at `time` counts: no damage has been recorded yet, or
    /// more than the cooldown has passed since the last that was.
    pub open spec fn counts(self, time: nat) -> bool {
        match self.last_damage {
            None => true,
            Some(last) => time - last > HIT_COOLDOWN,
        }
    }

    /// Whether a hit at `time` takes health away.
    pub open spec fn damages(self, time: nat) -> bool {
        self.counts(time) && self.health > 0
    }

    /// The state after an asteroid has reported a hit at `time`. A hit that
    /// counts takes `HIT_DAMAGE` away. If nothing is left, health is zero and
    /// the ship is dead; otherwise `time` is recorded and the bar follows.
    pub open spec fn hit(self, time: nat) -> HealthState {
        if !self.counts(time) {
            self
        } else if self.health <= HIT_DAMAGE {
            HealthState { health: 0, dead: true, ..self }
        } else {
            HealthState {
                health: (self.health - HIT_DAMAGE) as nat,
                shown: (self.health - HIT_DAMAGE) as nat,
                last_damage: Some(time),
                ..self
            }
        }
    }

    /// Horizontal scale of the health bar, in millionths: the shown health
    /// as a fraction of the maximum.
    pub open spec fn fill_scale(self) -> int {
        (self.shown * FULL_SCALE) / (MAX_HEALTH as int)
    }

    /// The state after hits were reported at each of `times`, in turn.
    pub open spec fn after_hits(self, times: Seq<nat>) -> HealthState
        decreases times.len(),
    {
        if times.len() == 0 {
            self
        } else {
            self.hit(times.first()).after_hits(times.drop_first())
        }
    }

    /// Those of `times`, in turn, at which the reported hit took health
    /// away.
    pub open spec fn damage_times(self, times: Seq<nat>) -> Seq<nat>
        decreases times.len(),
    {
        if times.len() == 0 {
            Seq::empty()
        } else {
            let rest = self.hit(times.first()).damage_times(times.drop_first());
            if self.damages(times.first()) {
                seq![times.first()] + rest
            } else {
                rest
            }
        }
    }
}

/// A reported hit never heals: a well-formed state stays well formed,
/// health does not go up and loses at most one step, and a dead ship stays
/// as it is.
pub proof fn lemma_hit_never_heals(state: HealthState, time: nat)
    requires
        state.wf(),
    ensures
        state.hit(time).wf(),
        state.hit(time).health <= state.health,
        state.health <= state.hit(time).health + HIT_DAMAGE,
        state.hit(time).health < state.health <==> state.damages(time),
        state.dead ==> state.hit(time) == state,
{
}

/// Hits reported at one and the same time count once: after the first, a
/// second changes nothing.
pub proof fn lemma_hit_settles(state: HealthState, time: nat)
    ensures
        state.hit(time).hit(time) == state.hit(time),
{
}

/// However many hits are reported, and whenever: health stays between zero
/// and the maximum, never goes up, is zero exactly when the ship is dead,
/// and a ship that is dead stays dead, with nothing changed.
pub proof fn lemma_health_never_recovers(state: HealthState, times: Seq<nat>)
    requires
        state.wf(),
    ensures
        state.after_hits(times).wf(),
        state.after_hits(times).health <= state.health,
        state.dead ==> state.after_hits(times) == state,
    decreases times.len(),
{
    if times.len() > 0 {
        lemma_hit_never_heals(state, times.first());
        lemma_health_never_recovers(state.hit(times.first()), times.drop_first());
    }
}

/// Health only goes down as more hits are reported: after the first `n` of
/// `times` it is at least what it is after all of them.
pub proof fn lemma_health_monotone(state: HealthState, times: Seq<nat>, n: int)
    requires
        state.wf(),
        0 <= n <= times.len(),
    ensures
        state.after_hits(times).health <= state.after_hits(times.take(n)).health,
    decreases times.len(),
{
    if n == 0 {
        lemma_health_never_recovers(state, times);
    } else {
        let next = state.hit(times.first());
        lemma_hit_never_heals(state, times.first());
        lemma_health_monotone(next, times.drop_first(), n - 1);
        assert(times.take(n).drop_first() == times.drop_first().take(n - 1));
    }
}

/// Nothing takes health from a dead ship.
pub proof fn lemma_dead_takes_no_damage(state: HealthState, times: Seq<nat>)
    requires
        state.wf(),
        state.dead,
    ensures
        state.damage_times(times).len() == 0,
    decreases times.len(),
{
    if times.len() > 0 {
        lemma_hit_never_heals(state, times.first());
        lemma_dead_takes_no_damage(state.hit(times.first()), times.drop_first());
    }
}

/// Damage events keep their distance: whatever hits are reported, and
/// however many at one time, any two moments at which health was taken away
/// are more than the cooldown apart, and each of them is more than the
/// cooldown after the damage that was on record before.
pub proof fn lemma_damage_times_spaced(state: HealthState, times: Seq<nat>)
    requires
        state.wf(),
    ensures
        forall|i: int, j: int|
            0 <= i < j < state.damage_times(times).len() ==> state.damage_times(times)[j]
                - state.damage_times(times)[i] > HIT_COOLDOWN,
        forall|j: int|
            0 <= j < state.damage_times(times).len() ==> state.counts(
                #[trigger] state.damage_times(times)[j],
            ),
    decreases times.len(),
{
    if times.len() > 0 {
        let time = times.first();
        let next = state.hit(time);
        let rest = next.damage_times(times.drop_first());
        lemma_hit_never_heals(state, time);
        lemma_damage_times_spaced(next, times.drop_first());
        if state.damages(time) {
            if next.dead {
                lemma_dead_takes_no_damage(next, times.drop_first());
            }
            // This hit comes first, and the next one had to wait for the
            // cooldown that it started.
            let all = state.damage_times(times);
            assert forall|j: int| 0 < j < all.len() implies all[j] == rest[j - 1] by {}
            assert forall|j: int| 0 <= j < rest.len() implies rest[j] - time > HIT_COOLDOWN by {}
        }
    }
}

/// The ship's health, the time of the last recorded damage and the dead flag.
#[derive(Clone, Copy, Debug, PartialEq, Eq)]
pub struct Health {
    hp: u32,
    shown: u32,
    last_damage: Option<u64>,
    dead: bool,
}

impl View for Health {
    type V = HealthState;

    closed spec fn view(&self) -> HealthState {
        HealthState {
            health: self.hp as nat,
            shown: self.shown as nat,
            last_damage: match self.last_damage {
                None => None,
                Some(last) => Some(last as nat),
            },
            dead: self.dead,
        }
    }
}

impl Health {
    /// Every `Health` is well formed.
    #[verifier::type_invariant]
    pub open spec fn wf(self) -> bool {
        self@.wf()
    }

    /// Full health, with no damage recorded.
    pub fn new() -> (health: Health)
        ensures
            health@ == HealthState::full(),
    {
        Health { hp: MAX_HEALTH, shown: MAX_HEALTH, last_damage: None, dead: false }
    }

    /// Takes the report of a hit at `time`, and says whether it counted,
    /// that is, whether it got past the cooldown.
    pub fn hit(&mut self, time: u64) -> (counted: bool)
        ensures
            final(self)@ == old(self)@.hit(time as nat),
            counted == old(self)@.counts(time as nat),
    {
        proof {
            use_type_invariant(&*self);
        }
        let counted = match self.last_damage {
            None => true,
            Some(last) => time > last && time - last > HIT_COOLDOWN,
        };
        if counted {
            if self.hp <= HIT_DAMAGE {
                *self = Health { hp: 0, dead: true, ..*self };
            } else {
                let left = self.hp - HIT_DAMAGE;
                *self = Health { hp: left, shown: left, last_damage: Some(time), ..*self };
            }
        }
        counted
    }

    /// Current health, between zero and `MAX_HEALTH`.
    pub fn health(&self) -> (hp: u32)
        ensures
            hp == self@.health,
            hp <= MAX_HEALTH,
    {
        proof {
            use_type_invariant(self);
        }
        self.hp
    }

    /// Whether the ship is dead, which it is exactly when its health is zero.
    pub fn is_dead(&self) -> (dead: bool)
        ensures
            dead == self@.dead,
            dead == (self@.health == 0),
    {
        proof {
            use_type_invariant(self);
        }
        self.dead
    }

    /// Time of the damage event that was recorded last, if there was one.
    pub fn last_damage(&self) -> (last: Option<u64>)
        ensures
            match last {
                None => self@.last_damage is None,
                Some(time) => self@.last_damage == Some(time as nat),
            },
    {
        self.last_damage
    }

    /// Horizontal scale of the health bar, in millionths.
    pub fn fill_scale(&self) -> (scale: u32)
        ensures
            scale == self@.fill_scale(),
            scale <= FULL_SCALE,
    {
        proof {
            use_type_invariant(self);
        }
        self.shown * FULL_SCALE / MAX_HEALTH
    }
}

} // verus!
