use asteroid_dodge::input::{can_handle_keys, handle_keys, Key, KeysHeld};
use asteroid_dodge::vector::Vec3;

fn held(up: bool, down: bool, right: bool, left: bool) -> KeysHeld {
    KeysHeld { up, down, right, left }
}

fn only(key: Key) -> KeysHeld {
    match key {
        Key::Up => held(true, false, false, false),
        Key::Down => held(false, true, false, false),
        Key::Right => held(false, false, true, false),
        Key::Left => held(false, false, false, true),
    }
}

fn after(speed: u32, dt: u64, keys: KeysHeld, from: Vec3) -> Vec3 {
    assert!(can_handle_keys(speed, dt, keys, from));
    let mut ship = from;
    handle_keys(speed, dt, keys, &mut ship);
    ship
}

#[test]
fn no_key_no_movement() {
    let from = Vec3::new(5, -7, 11);
    assert_eq!(after(300, 16_667, KeysHeld::none(), from), from);
    assert_eq!(KeysHeld::none(), held(false, false, false, false));
}

#[test]
fn each_key_moves_along_its_axis() {
    let from = Vec3::new(1_000, 2_000, 3_000);
    // 300 units per second for 16 667 microseconds: 5 000 100 millionths.
    assert_eq!(after(300, 16_667, only(Key::Up), from), Vec3::new(1_000, 5_002_100, 3_000));
    assert_eq!(after(300, 16_667, only(Key::Down), from), Vec3::new(1_000, -4_998_100, 3_000));
    assert_eq!(after(300, 16_667, only(Key::Right), from), Vec3::new(5_001_100, 2_000, 3_000));
    assert_eq!(after(300, 16_667, only(Key::Left), from), Vec3::new(-4_999_100, 2_000, 3_000));
}

#[test]
fn one_second_at_full_speed_is_three_hundred_units() {
    let ship = after(300, 1_000_000, only(Key::Right), Vec3::zero());
    assert_eq!(ship, Vec3::new(300_000_000, 0, 0));
    assert_eq!(ship.x as f64 / 1e6, 300.0);
}

#[test]
fn diagonal_movement_is_not_normalized() {
    let ship = after(300, 10_000, held(true, false, true, false), Vec3::zero());
    assert_eq!(ship, Vec3::new(3_000_000, 3_000_000, 0));
    let ship = after(300, 10_000, held(false, true, false, true), Vec3::zero());
    assert_eq!(ship, Vec3::new(-3_000_000, -3_000_000, 0));
}

#[test]
fn opposite_keys_cancel() {
    let from = Vec3::new(10, 20, 30);
    assert_eq!(after(300, 123_456, held(true, true, false, false), from), from);
    assert_eq!(after(300, 123_456, held(false, false, true, true), from), from);
    assert_eq!(after(300, 123_456, held(true, true, true, true), from), from);
    assert_eq!(
        after(300, 1_000, held(true, true, true, false), from),
        Vec3::new(300_010, 20, 30)
    );
}

#[test]
fn a_frame_of_no_time_moves_nothing() {
    let from = Vec3::new(-1, 2, -3);
    assert_eq!(after(300, 0, held(true, false, true, false), from), from);
    assert_eq!(after(0, 1_000_000, held(true, false, true, false), from), from);
}

#[test]
fn the_depth_coordinate_is_never_touched() {
    let from = Vec3::new(0, 0, i64::MIN);
    assert_eq!(after(300, 7, held(true, true, true, true), from).z, i64::MIN);
    assert_eq!(after(300, 7, held(true, false, false, true), from).z, i64::MIN);
}

#[test]
fn keys_add_up_in_any_order() {
    let from = Vec3::new(17, -4, 9);
    let orders: [[Key; 4]; 6] = [
        [Key::Up, Key::Down, Key::Right, Key::Left],
        [Key::Left, Key::Right, Key::Down, Key::Up],
        [Key::Right, Key::Up, Key::Left, Key::Down],
        [Key::Down, Key::Left, Key::Up, Key::Right],
        [Key::Up, Key::Right, Key::Down, Key::Left],
        [Key::Left, Key::Up, Key::Right, Key::Down],
    ];
    for bits in 0..16u32 {
        let keys = held(bits & 1 != 0, bits & 2 != 0, bits & 4 != 0, bits & 8 != 0);
        let at_once = after(300, 16_667, keys, from);
        for order in orders.iter() {
            let mut ship = from;
            for key in order.iter() {
                if keys.is_held(*key) {
                    ship = after(300, 16_667, only(*key), ship);
                }
            }
            assert_eq!(ship, at_once);
        }
    }
}

#[test]
fn is_held_reads_the_right_field() {
    let keys = held(true, false, false, true);
    assert!(keys.is_held(Key::Up));
    assert!(!keys.is_held(Key::Down));
    assert!(!keys.is_held(Key::Right));
    assert!(keys.is_held(Key::Left));
}

#[test]
fn movement_that_leaves_the_coordinates_is_refused() {
    let edge = Vec3::new(i64::MAX, i64::MIN, 0);
    assert!(!can_handle_keys(300, 1, only(Key::Right), edge));
    assert!(!can_handle_keys(300, 1, only(Key::Down), edge));
    assert!(can_handle_keys(300, 1, only(Key::Left), edge));
    assert!(can_handle_keys(300, 1, only(Key::Up), edge));
    assert!(can_handle_keys(300, 0, held(true, true, true, true), edge));
    assert!(can_handle_keys(u32::MAX, u64::MAX, held(true, true, true, true), edge));
    assert!(!can_handle_keys(u32::MAX, u64::MAX, only(Key::Up), Vec3::zero()));
    assert!(!can_handle_keys(u32::MAX, u64::MAX, only(Key::Left), Vec3::zero()));
}

#[test]
fn the_longest_step_crosses_the_whole_field() {
    let from = Vec3::new(i64::MIN, i64::MAX, 0);
    let ship = after(1, u64::MAX, held(false, true, true, false), from);
    assert_eq!(ship, Vec3::new(i64::MAX, i64::MIN, 0));
    assert!(!can_handle_keys(1, u64::MAX, only(Key::Right), Vec3::new(i64::MIN + 1, 0, 0)));
}
