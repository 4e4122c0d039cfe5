use asteroid_dodge::asteroid::{Asteroid, Heading};
use asteroid_dodge::input::{handle_keys, KeysHeld};
use asteroid_dodge::vector::Vec3;

/// A fixed sequence of scattered numbers.
struct Scatter(u64);

impl Scatter {
    fn next(&mut self) -> u64 {
        self.0 = self.0.wrapping_mul(6_364_136_223_846_793_005).wrapping_add(1_442_695_040_888_963_407);
        self.0 >> 16
    }

    /// A whole number from `low` up to, not including, `high`.
    fn between(&mut self, low: i64, high: i64) -> i64 {
        low + (self.next() % ((high - low) as u64)) as i64
    }

    /// A point within a thousand units of the origin.
    fn point(&mut self) -> Vec3 {
        Vec3::new(
            self.between(-1_000_000_000, 1_000_000_000),
            self.between(-1_000_000_000, 1_000_000_000),
            self.between(-1_000_000, 1_000_000),
        )
    }
}

fn units(millionths: i64) -> f64 {
    millionths as f64 / 1e6
}

#[test]
fn steering_agrees_with_speed_times_time() {
    let mut scatter = Scatter(1);
    for _ in 0..2_000 {
        let from = scatter.point();
        let dt = scatter.between(0, 2_000_000) as u64;
        let bits = scatter.next();
        let keys = KeysHeld {
            up: bits & 1 != 0,
            down: bits & 2 != 0,
            right: bits & 4 != 0,
            left: bits & 8 != 0,
        };
        let mut ship = from;
        handle_keys(300, dt, keys, &mut ship);

        let seconds = dt as f64 / 1e6;
        let mut x = units(from.x);
        let mut y = units(from.y);
        if keys.up {
            y += 300. * seconds;
        }
        if keys.down {
            y -= 300. * seconds;
        }
        if keys.right {
            x += 300. * seconds;
        }
        if keys.left {
            x -= 300. * seconds;
        }
        assert!((units(ship.x) - x).abs() < 1e-6);
        assert!((units(ship.y) - y).abs() < 1e-6);
        assert_eq!(ship.z, from.z);
    }
}

#[test]
fn following_agrees_with_the_fraction_of_the_gap() {
    let mut scatter = Scatter(2);
    let asteroid = Asteroid { i: 1, radius: 50_000, dead: false };
    for _ in 0..2_000 {
        let from = scatter.point();
        let target = scatter.point();
        let dt = scatter.between(0, 3_000_000) as u64;
        assert!(asteroid.can_follow(from, target, dt));
        let mut mesh = from;
        asteroid.follow(&mut mesh, target, dt);

        let seconds = dt as f64 / 1e6;
        let x = units(from.x) + (units(target.x) - units(from.x)) * seconds;
        let y = units(from.y) + (units(target.y) - units(from.y)) * seconds;
        let z = units(from.z) + (units(target.z) - units(from.z)) * seconds;
        // Rounding costs less than a millionth of a unit on each axis.
        assert!((units(mesh.x) - x).abs() < 1.5e-6);
        assert!((units(mesh.y) - y).abs() < 1.5e-6);
        assert!((units(mesh.z) - z).abs() < 1.5e-6);
    }
}

#[test]
fn collision_agrees_with_the_distance() {
    let mut scatter = Scatter(3);
    let mut hits = 0;
    let mut misses = 0;
    for _ in 0..20_000 {
        let radius = scatter.between(20_000, 70_000) as u32;
        let ship = scatter.point();
        let reach = 2 * 600 * radius as i64;
        let mesh = Vec3::new(
            ship.x + scatter.between(-reach, reach),
            ship.y + scatter.between(-reach, reach),
            ship.z + scatter.between(-reach / 4, reach / 4),
        );
        let dx = units(ship.x) - units(mesh.x);
        let dy = units(ship.y) - units(mesh.y);
        let dz = units(ship.z) - units(mesh.z);
        let distance = (dx * dx + dy * dy + dz * dz).sqrt();
        let range = units(radius as i64) * 600.;
        if (distance - range).abs() < 1e-5 {
            continue;
        }
        let mut asteroid = Asteroid { i: 1, radius, dead: false };
        let hit = asteroid.check_collision(ship, mesh);
        assert_eq!(hit, distance < range);
        assert_eq!(asteroid.dead, hit);
        if hit {
            hits += 1;
        } else {
            misses += 1;
        }
    }
    assert!(hits > 1_000);
    assert!(misses > 1_000);
}

#[test]
fn asteroids_appear_at_the_distance_of_the_ring() {
    for step in 0..360 {
        let angle = (step as f64).to_radians();
        let heading = Heading {
            cos: (angle.cos() * 1e6).round() as i32,
            sin: (angle.sin() * 1e6).round() as i32,
        };
        let (asteroid, mesh) = Asteroid::new(step, 50_000, heading);
        assert!(!asteroid.dead);
        assert_eq!(mesh.z, 0);
        let distance = (units(mesh.x).powi(2) + units(mesh.y).powi(2)).sqrt();
        assert!((distance - 800.).abs() < 1e-3);
        assert!((units(mesh.x) - 800. * angle.cos()).abs() < 1e-3);
        assert!((units(mesh.y) - 800. * angle.sin()).abs() < 1e-3);
    }
}
