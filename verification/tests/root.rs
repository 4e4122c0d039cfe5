use asteroid_dodge::asteroid::Heading;
use asteroid_dodge::input::KeysHeld;
use asteroid_dodge::{handle_keys, Asteroid, Game, Health, Vec3};

#[test]
fn the_main_items_stand_at_the_root() {
    let mut ship = Vec3::new(0, 0, 0);
    let keys = KeysHeld { up: true, down: false, right: false, left: true };
    handle_keys(300, 1_000, keys, &mut ship);
    assert_eq!(ship, Vec3::new(-300_000, 300_000, 0));

    let (mut asteroid, mesh) = Asteroid::new(7, 50_000, Heading { cos: 0, sin: -1_000_000 });
    assert_eq!(mesh, Vec3::new(0, -800_000_000, 0));
    asteroid.follow(&mut ship, mesh, 1_000_000);
    assert_eq!(ship, mesh);
    assert!(asteroid.check_collision(ship, mesh));
    assert_eq!(asteroid.key(), "7");

    let mut health = Health::new();
    assert!(health.hit(0));
    let mut game = Game::new();
    assert_eq!(game.spawn(1, Heading { cos: 0, sin: 0 }), Some(1));
    assert_eq!(game.rock(0).unwrap().mesh, Vec3::zero());
    assert!(game.frame(1, KeysHeld::none(), 0).unwrap().damaged);
    assert_eq!(game.health(), {
        let mut hit = Health::new();
        hit.hit(1);
        hit
    });
    assert_ne!(game.health(), health);
}
