//! The game as a whole: the ship, its health, the clock and the asteroids,
//! taken from one frame to the next.

use vstd::prelude::*;
use vstd::set_lib::{lemma_int_range, set_int_range};
use crate::asteroid::{collides, followed, ring_position, Asteroid, Heading};
use crate::health::{
    lemma_hit_never_heals, lemma_hit_settles, Health, HealthState, HIT_DAMAGE,
};
use crate::input::{can_handle_keys, displacement, handle_keys, KeysHeld};
use crate::key::{decimal, lemma_decimal_injective};
use crate::vector::{Vec3, Vector};

verus! {

/// Speed of the ship, in world units per second.
pub const SHIP_SPEED: u32 = 300;

/// A new asteroid appears in a frame whose draw, in millionths, is above
/// this. The draw is a fraction between zero and one; what is left of a
/// millionth counts as a whole one, so that the draws above ninety-nine
/// hundredths are exactly those that count as more than this.
pub const SPAWN_THRESHOLD: u32 = 990_000;

/// Smallest radius of a new asteroid, in millionths of a world unit.
pub const MIN_RADIUS: u32 = 20_000;

/// Upper end of the radii of new asteroids, in millionths of a world unit.
pub const MAX_RADIUS: u32 = 70_000;

/// Upper end of the scales at which a dead ship is drawn, each of its two
/// axes at a random one from zero up to this.
pub const CHAOS_SCALE: u32 = 5;

/// Whether a draw, in millionths, makes a new asteroid appear.
pub open spec fn spawns(draw: int) -> bool {
    draw > SPAWN_THRESHOLD
}

/// Whether a draw, in millionths, makes a new asteroid appear.
pub fn should_spawn(draw: u32) -> (spawn: bool)
    ensures
        spawn == spawns(draw as int),
{
    draw > SPAWN_THRESHOLD
}

/// An asteroid together with the position of its mesh.
#[derive(Clone, Copy, Debug, PartialEq, Eq, Structural)]
pub struct Rock {
    pub asteroid: Asteroid,
    pub mesh: Vec3,
}

/// The mathematical model of a [`Rock`].
pub struct RockState {
    pub id: int,
    pub radius: int,
    pub dead: bool,
    pub mesh: Vector,
}

impl View for Rock {
    type V = RockState;

    open spec fn view(&self) -> RockState {
        RockState {
            id: self.asteroid.i as int,
            radius: self.asteroid.radius as int,
            dead: self.asteroid.dead,
            mesh: self.mesh@,
        }
    }
}

impl RockState {
    /// Where the asteroid is after a frame of `dt` microseconds with the
    /// ship at `ship`: a live one homes in, a dead one stays.
    pub open spec fn moved(self, ship: Vector, dt: int) -> Vector {
        if self.dead {
            self.mesh
        } else {
            followed(self.mesh, ship, dt)
        }
    }

    /// Whether the asteroid, once it has moved, hits the ship.
    pub open spec fn hits(self, ship: Vector, dt: int) -> bool {
        collides(ship, self.moved(ship, dt), self.radius)
    }

    /// The asteroid after the frame: moved, and dead if it hit the ship.
    pub open spec fn after(self, ship: Vector, dt: int) -> RockState {
        RockState { mesh: self.moved(ship, dt), dead: self.dead || self.hits(ship, dt), ..self }
    }
}

/// The mathematical model of a [`Game`].
pub struct GameState {
    /// Position of the ship.
    pub ship: Vector,
    /// Health of the ship.
    pub health: HealthState,
    /// Microseconds of play so far.
    pub time: nat,
    /// The asteroids, in the order in which they appeared.
    pub rocks: Seq<RockState>,
}

impl GameState {
    /// What holds of every state that the game reaches: the health is well
    /// formed, and the asteroids are numbered from one in the order in which
    /// they appeared, so that no two share an identifier.
    pub open spec fn wf(self) -> bool {
        &&& self.health.wf()
        &&& self.rocks.len() <= i32::MAX
        &&& forall|k: int| 0 <= k < self.rocks.len() ==> (#[trigger] self.rocks[k]).id == k + 1
    }

    /// The state in which a game starts: the ship at the origin with full
    /// health, the clock at zero, no asteroid.
    pub open spec fn start() -> GameState {
        GameState {
            ship: Vector::zero(),
            health: HealthState::full(),
            time: 0,
            rocks: Seq::empty(),
        }
    }

    /// Where the keys take the ship in a frame of `dt` microseconds.
    pub open spec fn steered(self, dt: nat, keys: KeysHeld) -> Vector {
        self.ship.plus(displacement(keys, SHIP_SPEED as int, dt as int))
    }

    /// Whether some asteroid hits a ship at `ship` in a frame of `dt`
    /// microseconds.
    pub open spec fn any_hit(self, ship: Vector, dt: int) -> bool {
        exists|k: int| 0 <= k < self.rocks.len() && (#[trigger] self.rocks[k]).hits(ship, dt)
    }

    /// Whether the state after a frame can be held: the clock fits its
    /// counter, and while the ship lives, the new positions of the ship and
    /// of every asteroid fit their coordinates.
    pub open spec fn frame_fits(self, dt: nat, keys: KeysHeld) -> bool {
        &&& self.time + dt <= u64::MAX
        &&& !self.health.dead ==> {
            &&& self.steered(dt, keys).representable()
            &&& forall|k: int|
                0 <= k < self.rocks.len() ==> (#[trigger] self.rocks[k]).moved(
                    self.steered(dt, keys),
                    dt as int,
                ).representable()
        }
    }

    /// The state after a frame of `dt` microseconds with `keys` held. The
    /// clock advances. While the ship is dead nothing else happens.
    /// Otherwise the keys move the ship, every asteroid moves and is tested
    /// against the ship's new position, and if any of them hits, one hit is
    /// reported to the health at the new time.
    pub open spec fn frame(self, dt: nat, keys: KeysHeld) -> GameState {
        if self.health.dead {
            GameState { time: self.time + dt, ..self }
        } else {
            let ship = self.steered(dt, keys);
            let time = self.time + dt;
            GameState {
                ship,
                health: if self.any_hit(ship, dt as int) {
                    self.health.hit(time)
                } else {
                    self.health
                },
                time,
                rocks: Seq::new(self.rocks.len(), |k: int| self.rocks[k].after(ship, dt as int)),
            }
        }
    }

    /// Whether an identifier is left for one more asteroid.
    pub open spec fn spawn_fits(self) -> bool {
        self.rocks.len() < i32::MAX
    }

    /// The state with one more asteroid, live, of the given radius, on the
    /// ring in direction `heading`, numbered after those that are there.
    pub open spec fn spawned(self, radius: int, heading: Heading) -> GameState {
        GameState {
            rocks: self.rocks.push(
                RockState {
                    id: self.rocks.len() as int + 1,
                    radius,
                    dead: false,
                    mesh: ring_position(heading),
                },
            ),
            ..self
        }
    }
}

/// A frame keeps the game well formed and never helps the ship: its health
/// does not go up and drops by one step at most, and only where an asteroid
/// hit and the cooldown was over. A ship that was dead stays dead, with only
/// the clock moving.
pub proof fn lemma_frame_never_heals(state: GameState, dt: nat, keys: KeysHeld)
    requires
        state.wf(),
    ensures
        state.frame(dt, keys).wf(),
        state.frame(dt, keys).time == state.time + dt,
        state.frame(dt, keys).health.health <= state.health.health,
        state.health.health <= state.frame(dt, keys).health.health + HIT_DAMAGE,
        state.frame(dt, keys).health.health < state.health.health <==> {
            &&& state.any_hit(state.steered(dt, keys), dt as int)
            &&& state.health.damages(state.time + dt)
        },
        state.health.dead ==> state.frame(dt, keys) == (GameState {
            time: state.time + dt,
            ..state
        }),
{
    lemma_hit_never_heals(state.health, state.time + dt);
}

/// A frame neither adds nor removes an asteroid and changes no identifier
/// and no radius. An asteroid that was dead stays dead where it is, and a
/// live one is dead afterwards exactly if it hit the ship.
pub proof fn lemma_frame_keeps_asteroids(state: GameState, dt: nat, keys: KeysHeld, k: int)
    requires
        0 <= k < state.rocks.len(),
    ensures
        state.frame(dt, keys).rocks.len() == state.rocks.len(),
        state.frame(dt, keys).rocks[k].id == state.rocks[k].id,
        state.frame(dt, keys).rocks[k].radius == state.rocks[k].radius,
        state.rocks[k].dead ==> state.frame(dt, keys).rocks[k].dead && state.frame(
            dt,
            keys,
        ).rocks[k].mesh == state.rocks[k].mesh,
        !state.health.dead && !state.rocks[k].dead ==> (state.frame(dt, keys).rocks[k].dead
            <==> state.rocks[k].hits(state.steered(dt, keys), dt as int)),
{
}

/// In a well-formed game no two asteroids share an identifier.
pub proof fn lemma_identifiers_differ(state: GameState, j: int, k: int)
    requires
        state.wf(),
        0 <= j < state.rocks.len(),
        0 <= k < state.rocks.len(),
        j != k,
    ensures
        state.rocks[j].id != state.rocks[k].id,
{
}

/// In a well-formed game no two asteroids' meshes share a name.
pub proof fn lemma_keys_differ(state: GameState, j: int, k: int)
    requires
        state.wf(),
        0 <= j < state.rocks.len(),
        0 <= k < state.rocks.len(),
        j != k,
    ensures
        decimal(state.rocks[j].id) != decimal(state.rocks[k].id),
{
    if decimal(state.rocks[j].id) == decimal(state.rocks[k].id) {
        lemma_decimal_injective(state.rocks[j].id, state.rocks[k].id);
    }
}

/// One draw in a hundred makes an asteroid appear: of the million values
/// that a draw from one to a million can take, ten thousand do.
pub proof fn lemma_spawn_share()
    ensures
        Set::new(|draw: int| 1 <= draw <= 1_000_000 && spawns(draw)).finite(),
        Set::new(|draw: int| 1 <= draw <= 1_000_000 && spawns(draw)).len() == 10_000,
{
    let spawning = Set::new(|draw: int| 1 <= draw <= 1_000_000 && spawns(draw));
    lemma_int_range(990_001, 1_000_001);
    assert(spawning =~= set_int_range(990_001, 1_000_001));
}

/// A new asteroid keeps the game well formed as long as identifiers are
/// left, and leaves the ship, its health, the clock and the asteroids that
/// were there as they are.
pub proof fn lemma_spawn_adds_one(state: GameState, radius: int, heading: Heading)
    requires
        state.wf(),
        state.spawn_fits(),
    ensures
        state.spawned(radius, heading).wf(),
        state.spawned(radius, heading).rocks.len() == state.rocks.len() + 1,
        state.spawned(radius, heading).rocks.drop_last() == state.rocks,
        state.spawned(radius, heading).rocks.last().mesh == ring_position(heading),
        !state.spawned(radius, heading).rocks.last().dead,
{
}

/// What a frame asks of whoever draws the game.
#[derive(Clone, Copy, Debug, PartialEq, Eq, Structural)]
pub struct FrameReport {
    /// The ship lost health in this frame.
    pub damaged: bool,
    /// A new asteroid is to appear.
    pub spawn: bool,
    /// The ship was dead when the frame began, and is drawn in disarray.
    pub chaos: bool,
}

/// A game in progress.
pub struct Game {
    ship: Vec3,
    health: Health,
    time: u64,
    rocks: Vec<Rock>,
}

impl View for Game {
    type V = GameState;

    closed spec fn view(&self) -> GameState {
        GameState {
            ship: self.ship@,
            health: self.health@,
            time: self.time as nat,
            rocks: Seq::new(self.rocks@.len(), |k: int| self.rocks@[k]@),
        }
    }
}

impl Game {
    /// Every `Game` is well formed.
    #[verifier::type_invariant]
    pub open spec fn wf(self) -> bool {
        self@.wf()
    }

    /// A game at its start.
    pub fn new() -> (game: Game)
        ensures
            game@ == GameState::start(),
    {
        let health = Health::new();
        let game = Game { ship: Vec3::zero(), health, time: 0, rocks: Vec::new() };
        assert(game@.rocks =~= Seq::empty());
        game
    }

    /// Plays one frame of `dt` microseconds with `keys` held, and `draw`, in
    /// millionths, as the spawner's draw. Where the new state cannot be held
    /// nothing changes and there is no report.
    pub fn frame(&mut self, dt: u64, keys: KeysHeld, draw: u32) -> (report: Option<FrameReport>)
        ensures
            report is Some <==> old(self)@.frame_fits(dt as nat, keys),
            report is None ==> final(self)@ == old(self)@,
            report matches Some(said) ==> {
                &&& final(self)@ == old(self)@.frame(dt as nat, keys)
                &&& said.damaged == (final(self)@.health.health < old(self)@.health.health)
                &&& said.spawn == (!old(self)@.health.dead && spawns(draw as int))
                &&& said.chaos == old(self)@.health.dead
            },
    {
        proof {
            use_type_invariant(&*self);
        }
        let ghost before = self@;
        let time = match self.time.checked_add(dt) {
            Some(time) => time,
            None => {
                return None;
            },
        };
        if self.health.is_dead() {
            self.time = time;
            return Some(FrameReport { damaged: false, spawn: false, chaos: true });
        }
        if !can_handle_keys(SHIP_SPEED, dt, keys, self.ship) {
            return None;
        }
        let mut ship = self.ship;
        handle_keys(SHIP_SPEED, dt, keys, &mut ship);
        let count = self.rocks.len();
        let mut k: usize = 0;
        while k < count
            invariant
                k <= count,
                count == self.rocks.len(),
                self@ == before,
                before == old(self)@,
                !before.health.dead,
                before.time + dt <= u64::MAX,
                ship@ == before.steered(dt as nat, keys),
                forall|j: int|
                    0 <= j < k ==> (#[trigger] before.rocks[j]).moved(
                        ship@,
                        dt as int,
                    ).representable(),
            decreases count - k,
        {
            let rock = self.rocks[k];
            if !rock.asteroid.can_follow(rock.mesh, ship, dt) {
                assert(!before.rocks[k as int].moved(ship@, dt as int).representable());
                return None;
            }
            k += 1;
        }
        // The asteroids and the health are taken out while they change, and
        // put back together once the frame is complete.
        let mut rocks: Vec<Rock> = Vec::new();
        core::mem::swap(&mut self.rocks, &mut rocks);
        let mut health = self.health;
        let health_before = health.health();
        let mut k: usize = 0;
        let ghost mut hit_any = false;
        while k < count
            invariant
                k <= count,
                count == rocks.len(),
                before.wf(),
                before.rocks.len() == count,
                ship@ == before.steered(dt as nat, keys),
                forall|j: int|
                    0 <= j < count ==> (#[trigger] before.rocks[j]).moved(
                        ship@,
                        dt as int,
                    ).representable(),
                forall|j: int|
                    0 <= j < k ==> rocks@[j]@ == before.rocks[j].after(ship@, dt as int),
                forall|j: int| k <= j < count ==> rocks@[j]@ == before.rocks[j],
                hit_any <==> exists|j: int|
                    0 <= j < k && (#[trigger] before.rocks[j]).hits(ship@, dt as int),
                health@ == if hit_any {
                    before.health.hit(time as nat)
                } else {
                    before.health
                },
            decreases count - k,
        {
            let mut rock = rocks[k];
            assert(rock@ == before.rocks[k as int]);
            rock.asteroid.follow(&mut rock.mesh, ship, dt);
            let hit = rock.asteroid.check_collision(ship, rock.mesh);
            rocks.set(k, rock);
            if hit {
                health.hit(time);
                proof {
                    lemma_hit_settles(before.health, time as nat);
                    hit_any = true;
                }
            }
            k += 1;
        }
        proof {
            use_type_invariant(&health);
            lemma_hit_never_heals(before.health, time as nat);
        }
        let damaged = health.health() < health_before;
        self.ship = ship;
        self.time = time;
        self.health = health;
        core::mem::swap(&mut self.rocks, &mut rocks);
        assert(self@.rocks =~= before.frame(dt as nat, keys).rocks);
        Some(FrameReport { damaged, spawn: should_spawn(draw), chaos: false })
    }

    /// Makes a new asteroid of the given radius appear on the ring in
    /// direction `heading`, and gives its identifier. Where the identifiers
    /// have run out nothing changes and there is none.
    pub fn spawn(&mut self, radius: u32, heading: Heading) -> (id: Option<i32>)
        ensures
            id is Some <==> old(self)@.spawn_fits(),
            id is None ==> final(self)@ == old(self)@,
            id matches Some(i) ==> {
                &&& i == old(self)@.rocks.len() + 1
                &&& final(self)@ == old(self)@.spawned(radius as int, heading)
            },
    {
        proof {
            use_type_invariant(&*self);
        }
        let count = self.rocks.len();
        if count >= i32::MAX as usize {
            return None;
        }
        let i = (count + 1) as i32;
        let (asteroid, mesh) = Asteroid::new(i, radius, heading);
        // The list is taken out while it grows, and an empty one stands in.
        let mut rocks: Vec<Rock> = Vec::new();
        core::mem::swap(&mut self.rocks, &mut rocks);
        rocks.push(Rock { asteroid, mesh });
        proof {
            let grown = old(self)@.spawned(radius as int, heading);
            assert(Seq::new(rocks@.len(), |k: int| rocks@[k]@) =~= grown.rocks);
        }
        core::mem::swap(&mut self.rocks, &mut rocks);
        Some(i)
    }

    /// Position of the ship.
    pub fn ship(&self) -> (ship: Vec3)
        ensures
            ship@ == self@.ship,
    {
        self.ship
    }

    /// Health of the ship.
    pub fn health(&self) -> (health: Health)
        ensures
            health@ == self@.health,
    {
        self.health
    }

    /// Whether the ship is dead.
    pub fn is_dead(&self) -> (dead: bool)
        ensures
            dead == self@.health.dead,
    {
        self.health.is_dead()
    }

    /// Microseconds of play so far.
    pub fn time(&self) -> (time: u64)
        ensures
            time == self@.time,
    {
        self.time
    }

    /// How many asteroids have appeared.
    pub fn asteroid_count(&self) -> (count: usize)
        ensures
            count == self@.rocks.len(),
    {
        self.rocks.len()
    }

    /// The asteroid that appeared as number `k`, counted from zero, and
    /// where its mesh is, if there is one.
    pub fn rock(&self, k: usize) -> (rock: Option<Rock>)
        ensures
            rock is Some <==> k < self@.rocks.len(),
            rock matches Some(found) ==> found@ == self@.rocks[k as int],
    {
        if k < self.rocks.len() {
            Some(self.rocks[k])
        } else {
            None
        }
    }
}

} // verus!
