use bomber_defence::entities::{
    air_box, bomb_at, cannon_position, explosion_alpha, explosion_size, vault_circle,
    vault_position, Bomb, Explosion, Projectile,
};
use bomber_defence::geom::{Circle, Rectangle, Vector};
use bomber_defence::input::{Input, SpawnDraw};

fn v(x: i32, y: i32) -> Vector {
    Vector { x, y }
}

#[test]
fn cannon_stands_in_the_middle_of_the_ground_line() {
    assert_eq!(cannon_position(), v(400_000, 500_000));
}

#[test]
fn air_box_reaches_from_the_sky_to_the_ground() {
    assert_eq!(air_box(), Rectangle { pos: v(0, -1_000_000), size: v(800_000, 1_500_000) });
    assert!(air_box().contains(v(0, -1_000_000)));
    assert!(air_box().contains(v(799_999, 499_999)));
    assert!(!air_box().contains(v(800_000, 0)));
    assert!(!air_box().contains(v(400_000, 500_000)));
}

#[test]
fn bomb_rectangle_is_centred() {
    assert_eq!(
        bomb_at(v(100_000, 100_000)),
        Rectangle { pos: v(84_000, 94_000), size: v(32_000, 12_000) }
    );
}

#[test]
fn vaults_are_evenly_spaced() {
    assert_eq!(vault_position(0), v(160_000, 550_000));
    assert_eq!(vault_position(1), v(320_000, 550_000));
    assert_eq!(vault_position(2), v(480_000, 550_000));
    assert_eq!(vault_position(3), v(640_000, 550_000));
    assert_eq!(vault_circle(2), Circle { pos: v(480_000, 550_000), radius: 30_000 });
}

#[test]
fn explosion_radius_at_the_ends() {
    assert_eq!(explosion_size(30), 60_000);
    assert_eq!(explosion_size(0), 0);
}

#[test]
fn explosion_radius_shrinks_with_every_tick() {
    assert_eq!(explosion_size(29), 58_000);
    assert_eq!(explosion_size(15), 30_000);
    assert_eq!(explosion_size(1), 2_000);
    for time in 0..30 {
        assert!(explosion_size(time) < explosion_size(time + 1));
    }
}

#[test]
fn explosion_fades_to_half() {
    assert_eq!(explosion_alpha(30), 1_000);
    assert_eq!(explosion_alpha(29), 984);
    assert_eq!(explosion_alpha(15), 750);
    assert_eq!(explosion_alpha(0), 500);
    for time in 0..30 {
        assert!(explosion_alpha(time) <= explosion_alpha(time + 1));
    }
}

#[test]
fn projectile_leaves_the_cannon_at_cannon_power() {
    let p = Projectile::new(v(3, 4));
    assert_eq!(p.velocity, v(6_000, 8_000));
    assert_eq!(p.position, v(406_000, 508_000));
    let up = Projectile::new(v(0, -1_000));
    assert_eq!(up.velocity, v(0, -10_000));
    assert_eq!(up.position, v(400_000, 490_000));
}

#[test]
fn projectile_velocity_is_the_normalized_aim_times_power() {
    for (x, y) in [(1, 1), (-5, 2), (1_000, -1), (0, 9), (123_456, -654_321)] {
        let aim = v(x, y);
        let p = Projectile::new(aim);
        assert_eq!(p.velocity, aim.normalize().times(10_000));
        assert_eq!(p.position, cannon_position().plus(p.velocity));
        assert!(p.velocity.len2() <= 100_000_000);
    }
}

#[test]
fn projectile_speed_does_not_depend_on_the_length_of_the_aim() {
    let short = Projectile::new(v(1, 1));
    assert_eq!(short.velocity, v(7_070, 7_070));
    assert_eq!(short.position, v(407_070, 507_070));
    for k in [2, 3, 1_000, 1_000_000] {
        assert_eq!(Projectile::new(v(k, k)), short);
    }
    for (x, y) in [(1, 2), (-5, 2), (3, -4), (0, 7), (-1, 0), (123, 457)] {
        let p = Projectile::new(v(x, y));
        assert!(p.velocity.len2() >= 9_980 * 9_980);
        assert!(p.velocity.len2() <= 10_000 * 10_000);
        assert_ne!(p.position, cannon_position());
        for k in [2, 10, 1_000] {
            assert_eq!(Projectile::new(v(k * x, k * y)), p);
        }
    }
}

#[test]
fn projectile_without_direction_starts_at_the_cannon() {
    let p = Projectile::new(v(0, 0));
    assert_eq!(p.velocity, v(0, 0));
    assert_eq!(p.position, cannon_position());
}

#[test]
fn projectile_falls() {
    let p = Projectile { position: v(400_000, 490_000), velocity: v(0, -10_000) };
    let q = p.advance();
    assert_eq!(q.velocity, v(0, -9_880));
    assert_eq!(q.position, v(400_000, 480_120));
    assert_eq!(q.circle(), Circle { pos: v(400_000, 480_120), radius: 5_000 });
    assert!(q.is_in_flight());
}

#[test]
fn bomb_starts_one_step_on() {
    let b = Bomb::new(v(100_000, 10_000), v(5, 7));
    assert_eq!(b.position, v(100_005, 10_007));
    assert_eq!(b.velocity, v(5, 7));
}

#[test]
fn bomb_gathers_speed() {
    let b = Bomb { position: v(100_000, 10_000), velocity: v(0, 0) };
    let c = b.advance();
    assert_eq!(c.velocity, v(0, 120));
    assert_eq!(c.position, v(100_000, 10_120));
    let d = c.advance();
    assert_eq!(d.velocity, v(0, 240));
    assert_eq!(d.position, v(100_000, 10_360));
}

#[test]
fn bomb_speed_is_capped() {
    let b = Bomb { position: v(100_000, 100_000), velocity: v(0, 1_990) };
    let c = b.advance();
    assert_eq!(c.velocity, v(0, 2_000));
    assert_eq!(c.position, v(100_000, 102_000));
    let slanted = Bomb { position: v(100_000, 100_000), velocity: v(1_500, 1_500) };
    let d = slanted.advance();
    assert_eq!(d.velocity, v(1_358, 1_466));
    assert_eq!(d.position, v(101_358, 101_466));
}

#[test]
fn bomb_speed_never_exceeds_the_cap() {
    let mut b = Bomb { position: v(100_000, -900_000), velocity: v(0, 0) };
    for _ in 0..200 {
        b = b.advance();
        assert!(b.velocity.len2() <= 4_000_000);
    }
    assert_eq!(b.velocity, v(0, 2_000));
    for (x, y) in [(1_000_000, 5), (-3_000, 4_000), (2_000, -120), (-1_414, 1_300), (7, -999_999)] {
        let fast = Bomb { position: v(0, 0), velocity: v(x, y) };
        assert!(fast.advance().velocity.len2() <= 4_000_000);
    }
}

#[test]
fn bomb_exactly_at_the_cap_keeps_its_velocity() {
    let b = Bomb { position: v(0, 0), velocity: v(0, 1_880) };
    assert_eq!(b.advance().velocity, v(0, 2_000));
    let c = Bomb { position: v(0, 0), velocity: v(1_200, 1_480) };
    assert_eq!(c.advance().velocity, v(1_200, 1_600));
}

#[test]
fn bomb_falls_inside_the_air_box_within_the_cap() {
    assert!(Bomb { position: v(0, 0), velocity: v(0, 2_000) }.is_falling());
    assert!(!Bomb { position: v(0, 0), velocity: v(1, 2_000) }.is_falling());
    assert!(!Bomb { position: v(0, 500_000), velocity: v(0, 0) }.is_falling());
    assert_eq!(
        Bomb { position: v(16_000, 6_000), velocity: v(0, 0) }.shape(),
        Rectangle { pos: v(0, 0), size: v(32_000, 12_000) }
    );
}

#[test]
fn explosion_starts_with_all_its_time() {
    let e = Explosion::new(v(1, 2));
    assert_eq!(e, Explosion { position: v(1, 2), timer: 30 });
    assert_eq!(e.extent(), Circle { pos: v(1, 2), radius: 60_000 });
    assert!(e.is_burning());
}

#[test]
fn explosion_ages() {
    let e = Explosion::new(v(1, 2)).age();
    assert_eq!(e, Explosion { position: v(1, 2), timer: 29 });
    assert_eq!(e.extent(), Circle { pos: v(1, 2), radius: 58_000 });
    let last = Explosion { position: v(1, 2), timer: 0 };
    assert!(last.is_burning());
    assert_eq!(last.extent().radius, 0);
    assert!(!last.age().is_burning());
    assert!(!Explosion { position: v(1, 2), timer: 31 }.is_burning());
}

#[test]
fn either_control_fires() {
    assert!(!Input { key_down: false, button_down: false }.fire_held());
    assert!(Input { key_down: true, button_down: false }.fire_held());
    assert!(Input { key_down: false, button_down: true }.fire_held());
    assert!(Input { key_down: true, button_down: true }.fire_held());
}

#[test]
fn draws_outside_the_ranges_are_not_valid() {
    assert!(SpawnDraw { delay: 20, column: 0 }.is_valid());
    assert!(SpawnDraw { delay: 50, column: 799 }.is_valid());
    assert!(!SpawnDraw { delay: 19, column: 0 }.is_valid());
    assert!(!SpawnDraw { delay: 51, column: 0 }.is_valid());
    assert!(!SpawnDraw { delay: 20, column: -1 }.is_valid());
    assert!(!SpawnDraw { delay: 20, column: 800 }.is_valid());
}

#[test]
fn random_draws_lie_in_range_and_vary() {
    let mut delays_vary = false;
    let mut columns_vary = false;
    let first = SpawnDraw::random();
    for _ in 0..500 {
        let draw = SpawnDraw::random();
        assert!(draw.is_valid());
        assert!(20 <= draw.delay && draw.delay < 50);
        assert!(0 <= draw.column && draw.column < 800);
        delays_vary = delays_vary || draw.delay != first.delay;
        columns_vary = columns_vary || draw.column != first.column;
    }
    assert!(delays_vary);
    assert!(columns_vary);
}
