//! Steering: the keys that are held move the ship.

use vstd::prelude::*;
use vstd::multiset::Multiset;
use vstd::seq_lib::to_multiset_build;
use crate::vector::{lemma_scaled_next, lemma_scaled_unit, Vec3, Vector};

verus! {

/// One of the four movement keys.
#[derive(Clone, Copy, Debug, PartialEq, Eq, Structural)]
pub enum Key {
    Up,
    Down,
    Right,
    Left,
}

/// Which movement keys are held down during a frame. A key whose state is
/// unknown counts as not held.
#[derive(Clone, Copy, Debug, PartialEq, Eq, Structural)]
pub struct KeysHeld {
    pub up: bool,
    pub down: bool,
    pub right: bool,
    pub left: bool,
}

impl KeysHeld {
    /// Whether `key` is held.
    pub open spec fn holds(self, key: Key) -> bool {
        match key {
            Key::Up => self.up,
            Key::Down => self.down,
            Key::Right => self.right,
            Key::Left => self.left,
        }
    }

    /// The keys that are held in `self` or in `other`.
    pub open spec fn with(self, other: KeysHeld) -> KeysHeld {
        KeysHeld {
            up: self.up || other.up,
            down: self.down || other.down,
            right: self.right || other.right,
            left: self.left || other.left,
        }
    }

    /// Whether no key is held in both `self` and `other`.
    pub open spec fn apart_from(self, other: KeysHeld) -> bool {
        forall|key: Key| !(self.holds(key) && other.holds(key))
    }

    /// No key held.
    pub fn none() -> (keys: KeysHeld)
        ensures
            forall|key: Key| !keys.holds(key),
    {
        KeysHeld { up: false, down: false, right: false, left: false }
    }

    /// Whether `key` is held.
    pub fn is_held(&self, key: Key) -> (held: bool)
        ensures
            held == self.holds(key),
    {
        match key {
            Key::Up => self.up,
            Key::Down => self.down,
            Key::Right => self.right,
            Key::Left => self.left,
        }
    }
}

/// The unit vector along which `key` moves the ship.
pub open spec fn direction(key: Key) -> Vector {
    match key {
        Key::Up => Vector { x: 0, y: 1, z: 0 },
        Key::Down => Vector { x: 0, y: -1, z: 0 },
        Key::Right => Vector { x: 1, y: 0, z: 0 },
        Key::Left => Vector { x: -1, y: 0, z: 0 },
    }
}

/// What `key` adds to the ship's position in a frame of `dt` microseconds at
/// `speed` units per second: its direction times `speed * dt` if it is held,
/// nothing otherwise.
pub open spec fn shift(keys: KeysHeld, key: Key, speed: int, dt: int) -> Vector {
    if keys.holds(key) {
        direction(key).scaled(speed * dt)
    } else {
        Vector::zero()
    }
}

/// The ship's displacement in one frame: the sum of what each key adds.
pub open spec fn displacement(keys: KeysHeld, speed: int, dt: int) -> Vector {
    shift(keys, Key::Up, speed, dt).plus(shift(keys, Key::Down, speed, dt)).plus(
        shift(keys, Key::Right, speed, dt),
    ).plus(shift(keys, Key::Left, speed, dt))
}

/// The shifts of the keys in `order`, added up one after the other.
pub open spec fn sum_of_shifts(keys: KeysHeld, order: Seq<Key>, speed: int, dt: int) -> Vector
    decreases order.len(),
{
    if order.len() == 0 {
        Vector::zero()
    } else {
        sum_of_shifts(keys, order.drop_last(), speed, dt).plus(
            shift(keys, order.last(), speed, dt),
        )
    }
}

/// The shifts of the four keys, each counted as often as `counts` holds it.
pub open spec fn weighted_shifts(
    keys: KeysHeld,
    counts: Multiset<Key>,
    speed: int,
    dt: int,
) -> Vector {
    shift(keys, Key::Up, speed, dt).scaled(counts.count(Key::Up) as int).plus(
        shift(keys, Key::Down, speed, dt).scaled(counts.count(Key::Down) as int),
    ).plus(shift(keys, Key::Right, speed, dt).scaled(counts.count(Key::Right) as int)).plus(
        shift(keys, Key::Left, speed, dt).scaled(counts.count(Key::Left) as int),
    )
}

/// Adding shifts up one after the other counts each key as often as it
/// occurs, wherever it occurs.
pub proof fn lemma_sum_of_shifts_counts(keys: KeysHeld, order: Seq<Key>, speed: int, dt: int)
    ensures
        sum_of_shifts(keys, order, speed, dt) == weighted_shifts(
            keys,
            order.to_multiset(),
            speed,
            dt,
        ),
    decreases order.len(),
{
    let up = shift(keys, Key::Up, speed, dt);
    let down = shift(keys, Key::Down, speed, dt);
    let right = shift(keys, Key::Right, speed, dt);
    let left = shift(keys, Key::Left, speed, dt);
    if order.len() == 0 {
        let counts = order.to_multiset();
        assert(counts.len() == 0) by {
            order.to_multiset_ensures();
        }
        assert(forall|key: Key| counts.count(key) == 0) by {
            vstd::multiset::lemma_multiset_empty_len(counts);
        }
        lemma_scaled_unit(up);
        lemma_scaled_unit(down);
        lemma_scaled_unit(right);
        lemma_scaled_unit(left);
    } else {
        let init = order.drop_last();
        let last = order.last();
        lemma_sum_of_shifts_counts(keys, init, speed, dt);
        assert(order == init.push(last));
        to_multiset_build(init, last);
        let before = init.to_multiset();
        let after = order.to_multiset();
        assert(forall|key: Key|
            after.count(key) == before.count(key) + (if key == last {
                1nat
            } else {
                0nat
            }));
        lemma_scaled_next(up, before.count(Key::Up) as int);
        lemma_scaled_next(down, before.count(Key::Down) as int);
        lemma_scaled_next(right, before.count(Key::Right) as int);
        lemma_scaled_next(left, before.count(Key::Left) as int);
    }
}

/// The order in which the keys' shifts are added up does not matter: two
/// sequences that hold the same keys equally often add up to the same
/// displacement.
pub proof fn lemma_shifts_commute(keys: KeysHeld, a: Seq<Key>, b: Seq<Key>, speed: int, dt: int)
    requires
        a.to_multiset() == b.to_multiset(),
    ensures
        sum_of_shifts(keys, a, speed, dt) == sum_of_shifts(keys, b, speed, dt),
{
    lemma_sum_of_shifts_counts(keys, a, speed, dt);
    lemma_sum_of_shifts_counts(keys, b, speed, dt);
}

/// A frame's displacement is the sum of the four keys' shifts, taken in
/// any order.
pub proof fn lemma_displacement_any_order(keys: KeysHeld, order: Seq<Key>, speed: int, dt: int)
    requires
        forall|key: Key| order.to_multiset().count(key) == 1,
    ensures
        sum_of_shifts(keys, order, speed, dt) == displacement(keys, speed, dt),
{
    lemma_sum_of_shifts_counts(keys, order, speed, dt);
    lemma_scaled_unit(shift(keys, Key::Up, speed, dt));
    lemma_scaled_unit(shift(keys, Key::Down, speed, dt));
    lemma_scaled_unit(shift(keys, Key::Right, speed, dt));
    lemma_scaled_unit(shift(keys, Key::Left, speed, dt));
}

/// The length of one key's shift: `speed * dt` if the key is held, nothing
/// otherwise.
pub open spec fn step_if(held: bool, speed: int, dt: int) -> int {
    if held {
        speed * dt
    } else {
        0
    }
}

/// The coordinates of a frame's displacement: on each axis the key that
/// points forward adds its step and the opposite key takes its step away,
/// so that opposite keys cancel.
pub proof fn lemma_displacement_coordinates(keys: KeysHeld, speed: int, dt: int)
    ensures
        displacement(keys, speed, dt).x == step_if(keys.right, speed, dt) - step_if(
            keys.left,
            speed,
            dt,
        ),
        displacement(keys, speed, dt).y == step_if(keys.up, speed, dt) - step_if(
            keys.down,
            speed,
            dt,
        ),
        displacement(keys, speed, dt).z == 0,
{
    let step = speed * dt;
    assert(0 * step == 0 && 1 * step == step && (-1) * step == -step) by (nonlinear_arith);
}

/// Keys combine additively: holding two sets of keys at once, with no key in
/// both, moves the ship as far as holding one set and then the other, in
/// either order.
pub proof fn lemma_keys_combine(ship: Vector, a: KeysHeld, b: KeysHeld, speed: int, dt: int)
    requires
        a.apart_from(b),
    ensures
        ship.plus(displacement(a.with(b), speed, dt)) == ship.plus(displacement(a, speed, dt)).plus(
            displacement(b, speed, dt),
        ),
        ship.plus(displacement(a.with(b), speed, dt)) == ship.plus(displacement(b, speed, dt)).plus(
            displacement(a, speed, dt),
        ),
{
    lemma_displacement_coordinates(a, speed, dt);
    lemma_displacement_coordinates(b, speed, dt);
    lemma_displacement_coordinates(a.with(b), speed, dt);
}

/// Whether `handle_keys` can move a ship at `ship`: the new position has to
/// fit the coordinates.
pub open spec fn steer_fits(ship: Vector, keys: KeysHeld, speed: int, dt: int) -> bool {
    ship.plus(displacement(keys, speed, dt)).representable()
}

/// The first two coordinates of the ship's new position, before they are
/// narrowed.
fn steered(speed: u32, dt: u64, keys: KeysHeld, ship: Vec3) -> (wide: (i128, i128))
    ensures
        wide.0 == ship@.plus(displacement(keys, speed as int, dt as int)).x,
        wide.1 == ship@.plus(displacement(keys, speed as int, dt as int)).y,
        ship.z == ship@.plus(displacement(keys, speed as int, dt as int)).z,
{
    proof {
        lemma_displacement_coordinates(keys, speed as int, dt as int);
        assert(0 <= (speed as int) * (dt as int) <= 0xffff_ffff * 0xffff_ffff_ffff_ffff)
            by (nonlinear_arith)
            requires
                0 <= speed <= 0xffff_ffff,
                0 <= dt <= 0xffff_ffff_ffff_ffff,
        ;
    }
    let step: i128 = (speed as i128) * (dt as i128);
    let mut dx: i128 = 0;
    let mut dy: i128 = 0;
    if keys.up {
        dy = dy + step;
    }
    if keys.down {
        dy = dy - step;
    }
    if keys.right {
        dx = dx + step;
    }
    if keys.left {
        dx = dx - step;
    }
    (ship.x as i128 + dx, ship.y as i128 + dy)
}

/// Whether `handle_keys` can be called with these arguments.
pub fn can_handle_keys(speed: u32, dt: u64, keys: KeysHeld, ship: Vec3) -> (fits: bool)
    ensures
        fits == steer_fits(ship@, keys, speed as int, dt as int),
{
    let (x, y) = steered(speed, dt, keys, ship);
    i64::MIN as i128 <= x && x <= i64::MAX as i128 && i64::MIN as i128 <= y && y
        <= i64::MAX as i128
}

/// Moves the ship by what the held keys add up to, for a frame of `dt`
/// microseconds at `speed` world units per second.
pub fn handle_keys(speed: u32, dt: u64, keys: KeysHeld, ship: &mut Vec3)
    requires
        steer_fits(old(ship)@, keys, speed as int, dt as int),
    ensures
        final(ship)@ == old(ship)@.plus(displacement(keys, speed as int, dt as int)),
{
    let (x, y) = steered(speed, dt, keys, *ship);
    ship.x = x as i64;
    ship.y = y as i64;
}

} // verus!
