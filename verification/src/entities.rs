//! The things that move and burn: projectiles, bombs and explosions, the
//! places of the cannon and the vaults, and how each entity changes in one
//! tick.

use vstd::prelude::*;
use crate::config::{
    BOMB_HEIGHT, BOMB_SPEED_MAX, BOMB_WIDTH, CANNON_HEIGHT, CANNON_POWER, EXPLOSION_ALPHA_FRACTION,
    EXPLOSION_DURATION, EXPLOSION_RADIUS, GRAVITY, HEIGHT, NUM_VAULTS, OPAQUE, PROJECTILE_RADIUS,
    SKY_MARGIN, UNIT, VAULT_DEPTH, VAULT_RADIUS, WIDTH,
};
use crate::geom::{
    lemma_unit_vector_length, lemma_unit_vector_scales, vec2, Circle, Rectangle, Vector,
};

verus! {

/// Greatest distance, along either axis, that a projectile can cover in one
/// tick and still be inside the play region afterwards.
pub const MAX_STEP: i32 = 1_500_000;

/// Where the cannon stands: in the middle of the ground line.
pub open spec fn spec_cannon_position() -> Vector {
    vec2(WIDTH as int / 2, HEIGHT - CANNON_HEIGHT)
}

/// The play region: as wide as the screen, from far above it down to the
/// ground line.
pub open spec fn spec_air_box() -> Rectangle {
    Rectangle {
        pos: Vector { x: 0, y: (-SKY_MARGIN) as i32 },
        size: Vector { x: WIDTH, y: (HEIGHT - CANNON_HEIGHT + SKY_MARGIN) as i32 },
    }
}

/// The rectangle that a bomb at `position` covers; `position` is its centre.
pub open spec fn spec_bomb_at(position: Vector) -> Rectangle {
    Rectangle {
        pos: vec2(position.x - BOMB_WIDTH as int / 2, position.y - BOMB_HEIGHT as int / 2),
        size: Vector { x: BOMB_WIDTH, y: BOMB_HEIGHT },
    }
}

/// Radius of an explosion that has `time` ticks left: it shrinks evenly from
/// the full radius to nothing.
pub open spec fn spec_explosion_size(time: int) -> int {
    EXPLOSION_RADIUS * time / (EXPLOSION_DURATION as int)
}

/// Opacity of an explosion that has `time` ticks left, in thousandths: from
/// opaque it fades evenly, and ends at the fraction that the configuration
/// names.
pub open spec fn spec_explosion_alpha(time: int) -> int {
    OPAQUE - (EXPLOSION_DURATION - time) * OPAQUE / (EXPLOSION_DURATION * EXPLOSION_ALPHA_FRACTION)
}

/// Centre of the vault with the given index: the vaults stand evenly spaced
/// along the ground, with a gap before the first and after the last.
pub open spec fn spec_vault_position(index: int) -> Vector {
    vec2((WIDTH as int / (NUM_VAULTS as int + 1)) * (index + 1), HEIGHT - VAULT_DEPTH)
}

/// The disc that an intact vault covers.
pub open spec fn spec_vault_circle(index: int) -> Circle {
    Circle { pos: spec_vault_position(index), radius: VAULT_RADIUS }
}

/// Gives the place of the cannon.
pub fn cannon_position() -> (p: Vector)
    ensures
        p == spec_cannon_position(),
{
    Vector { x: WIDTH / 2, y: HEIGHT - CANNON_HEIGHT }
}

/// Gives the play region.
pub fn air_box() -> (r: Rectangle)
    ensures
        r == spec_air_box(),
{
    Rectangle {
        pos: Vector { x: 0, y: -SKY_MARGIN },
        size: Vector { x: WIDTH, y: HEIGHT - CANNON_HEIGHT + SKY_MARGIN },
    }
}

/// Gives the rectangle that a bomb at `position` covers.
pub fn bomb_at(position: Vector) -> (r: Rectangle)
    requires
        position.in_reach(),
    ensures
        r == spec_bomb_at(position),
        r.pos.x == position.x - BOMB_WIDTH / 2,
        r.pos.y == position.y - BOMB_HEIGHT / 2,
{
    Rectangle {
        pos: Vector { x: position.x - BOMB_WIDTH / 2, y: position.y - BOMB_HEIGHT / 2 },
        size: Vector { x: BOMB_WIDTH, y: BOMB_HEIGHT },
    }
}

/// Computes the radius of an explosion with `time` ticks left.
pub fn explosion_size(time: i32) -> (r: i32)
    requires
        0 <= time <= EXPLOSION_DURATION,
    ensures
        r == spec_explosion_size(time as int),
        0 <= r <= EXPLOSION_RADIUS,
{
    EXPLOSION_RADIUS * time / EXPLOSION_DURATION
}

/// Computes the opacity of an explosion with `time` ticks left.
pub fn explosion_alpha(time: i32) -> (a: i32)
    requires
        0 <= time <= EXPLOSION_DURATION,
    ensures
        a == spec_explosion_alpha(time as int),
        OPAQUE - OPAQUE / EXPLOSION_ALPHA_FRACTION <= a <= OPAQUE,
{
    OPAQUE - (EXPLOSION_DURATION - time) * OPAQUE / (EXPLOSION_DURATION * EXPLOSION_ALPHA_FRACTION)
}

/// Gives the centre of a vault.
pub fn vault_position(index: usize) -> (p: Vector)
    requires
        index < NUM_VAULTS,
    ensures
        p == spec_vault_position(index as int),
{
    let slots: i32 = NUM_VAULTS as i32 + 1;
    let spacing: i32 = WIDTH / slots;
    assert(spacing == 160_000 && WIDTH as int / (NUM_VAULTS as int + 1) == 160_000) by (
    nonlinear_arith)
        requires
            slots == 5,
            NUM_VAULTS == 4,
            WIDTH == 800_000,
            spacing == 800_000int / (slots as int),
    ;
    let position_x: i32 = spacing * (index as i32 + 1);
    Vector { x: position_x, y: HEIGHT - VAULT_DEPTH }
}

/// Gives the disc that an intact vault covers.
pub fn vault_circle(index: usize) -> (c: Circle)
    requires
        index < NUM_VAULTS,
    ensures
        c == spec_vault_circle(index as int),
{
    Circle { pos: vault_position(index), radius: VAULT_RADIUS }
}

/// A shot fired by the cannon.
#[derive(Clone, Copy, Debug, PartialEq, Eq, Structural)]
pub struct Projectile {
    pub position: Vector,
    pub velocity: Vector,
}

/// A bomb on its way down.
#[derive(Clone, Copy, Debug, PartialEq, Eq, Structural)]
pub struct Bomb {
    pub position: Vector,
    pub velocity: Vector,
}

/// A blast, with the number of ticks it has left.
#[derive(Clone, Copy, Debug, PartialEq, Eq, Structural)]
pub struct Explosion {
    pub position: Vector,
    pub timer: i32,
}

impl Projectile {
    /// The projectile that the cannon fires along `aim_vector`: it flies at
    /// cannon power in that direction, however long the aim is, and starts
    /// one step away from the cannon. An aim without direction gives a
    /// projectile at rest at the cannon.
    pub open spec fn spec_new(aim_vector: Vector) -> Projectile {
        let velocity = aim_vector.spec_normalize().spec_times(CANNON_POWER as int);
        Projectile { position: spec_cannon_position().spec_plus(velocity), velocity }
    }

    /// Position and velocity are small enough for one more step.
    pub open spec fn movable(self) -> bool {
        self.position.in_reach() && self.velocity.in_reach()
    }

    /// The projectile is inside the play region, at a speed with which it can
    /// have got there.
    pub open spec fn in_flight(self) -> bool {
        &&& spec_air_box().spec_contains(self.position)
        &&& -MAX_STEP <= self.velocity.x <= MAX_STEP
        &&& -MAX_STEP <= self.velocity.y <= MAX_STEP
    }

    /// The projectile can take its next step and, if that step ends inside
    /// the play region, is in flight afterwards: it either is in flight
    /// already or has just left the cannon.
    pub open spec fn ready(self) -> bool {
        ||| self.in_flight()
        ||| {
            &&& self.position.in_reach()
            &&& -CANNON_POWER <= self.velocity.x <= CANNON_POWER
            &&& -CANNON_POWER <= self.velocity.y <= CANNON_POWER
        }
    }

    /// The projectile one tick later: gravity pulls on the velocity, then the
    /// velocity moves the position.
    pub open spec fn spec_advance(self) -> Projectile {
        let velocity = vec2(self.velocity.x as int, self.velocity.y + GRAVITY);
        Projectile { position: self.position.spec_plus(velocity), velocity }
    }

    /// The disc that the projectile covers.
    pub open spec fn spec_circle(self) -> Circle {
        Circle { pos: self.position, radius: PROJECTILE_RADIUS }
    }

    /// Fires a projectile along `aim_vector`.
    pub fn new(aim_vector: Vector) -> (p: Projectile)
        ensures
            p == Self::spec_new(aim_vector),
            p.velocity == aim_vector.spec_normalize().spec_times(CANNON_POWER as int),
            p.position.x == spec_cannon_position().x + p.velocity.x,
            p.position.y == spec_cannon_position().y + p.velocity.y,
            p.velocity.spec_len2() <= CANNON_POWER * CANNON_POWER,
            aim_vector.x != 0 || aim_vector.y != 0 ==> p.velocity.spec_len2() >= (CANNON_POWER
                - 20) * (CANNON_POWER - 20),
            aim_vector.x != 0 || aim_vector.y != 0 ==> p.position != spec_cannon_position(),
            (aim_vector.x >= 0 ==> p.velocity.x >= 0) && (aim_vector.x <= 0 ==> p.velocity.x <= 0),
            (aim_vector.y >= 0 ==> p.velocity.y >= 0) && (aim_vector.y <= 0 ==> p.velocity.y <= 0),
            p.movable(),
            p.ready(),
    {
        let unit = aim_vector.normalize();
        let velocity = unit.times(CANNON_POWER);
        assert(unit.x == 0 && unit.y == 0 ==> unit.spec_len2() == 0) by (nonlinear_arith);
        assert(unit.spec_len2() >= (UNIT - 2) * (UNIT - 2) ==> velocity.spec_len2() >= (
        CANNON_POWER - 20) * (CANNON_POWER - 20)) by (nonlinear_arith)
            requires
                velocity.x == 10 * unit.x,
                velocity.y == 10 * unit.y,
                UNIT == 1000,
                CANNON_POWER == 10_000,
        ;
        assert(velocity.spec_len2() <= CANNON_POWER * CANNON_POWER) by (nonlinear_arith)
            requires
                velocity.x == 10 * unit.x,
                velocity.y == 10 * unit.y,
                unit.spec_len2() <= UNIT * UNIT,
        ;
        let position = cannon_position().plus(velocity);
        Projectile { position, velocity }
    }

    /// Moves the projectile by one tick.
    pub fn advance(self) -> (p: Projectile)
        requires
            self.movable(),
        ensures
            p == self.spec_advance(),
            p.velocity.x == self.velocity.x,
            p.velocity.y == self.velocity.y + GRAVITY,
            p.position.x == self.position.x + p.velocity.x,
            p.position.y == self.position.y + p.velocity.y,
    {
        let velocity = Vector { x: self.velocity.x, y: self.velocity.y + GRAVITY };
        Projectile { position: self.position.plus(velocity), velocity }
    }

    /// Tells whether the projectile is in flight.
    pub fn is_in_flight(self) -> (ok: bool)
        ensures
            ok == self.in_flight(),
    {
        air_box().contains(self.position) && -MAX_STEP <= self.velocity.x && self.velocity.x
            <= MAX_STEP && -MAX_STEP <= self.velocity.y && self.velocity.y <= MAX_STEP
    }

    /// Gives the disc that the projectile covers.
    pub fn circle(self) -> (c: Circle)
        ensures
            c == self.spec_circle(),
    {
        Circle { pos: self.position, radius: PROJECTILE_RADIUS }
    }
}

impl Bomb {
    /// The bomb dropped at `dropped_at` with velocity `vel`: it starts one
    /// step further on.
    pub open spec fn spec_new(dropped_at: Vector, vel: Vector) -> Bomb {
        Bomb { position: dropped_at.spec_plus(vel), velocity: vel }
    }

    /// Position and velocity are small enough for one more step.
    pub open spec fn movable(self) -> bool {
        self.position.in_reach() && self.velocity.in_reach()
    }

    /// The bomb is no faster than a bomb may be.
    pub open spec fn within_speed_limit(self) -> bool {
        self.velocity.spec_len2() <= BOMB_SPEED_MAX * BOMB_SPEED_MAX
    }

    /// The bomb is inside the play region and no faster than a bomb may be.
    pub open spec fn falling(self) -> bool {
        spec_air_box().spec_contains(self.position) && self.within_speed_limit()
    }

    /// The velocity after gravity has pulled on it, held to the speed limit:
    /// a faster one keeps its direction and gets the greatest speed allowed.
    pub open spec fn spec_next_velocity(self) -> Vector {
        let pulled = vec2(self.velocity.x as int, self.velocity.y + GRAVITY);
        if pulled.spec_len2() > BOMB_SPEED_MAX * BOMB_SPEED_MAX {
            pulled.spec_normalize().spec_times(BOMB_SPEED_MAX as int)
        } else {
            pulled
        }
    }

    /// The bomb one tick later.
    pub open spec fn spec_advance(self) -> Bomb {
        let velocity = self.spec_next_velocity();
        Bomb { position: self.position.spec_plus(velocity), velocity }
    }

    /// The rectangle that the bomb covers.
    pub open spec fn spec_shape(self) -> Rectangle {
        spec_bomb_at(self.position)
    }

    /// Drops a bomb.
    pub fn new(dropped_at: Vector, vel: Vector) -> (b: Bomb)
        requires
            i32::MIN <= dropped_at.x + vel.x <= i32::MAX,
            i32::MIN <= dropped_at.y + vel.y <= i32::MAX,
        ensures
            b == Self::spec_new(dropped_at, vel),
            b.position.x == dropped_at.x + vel.x,
            b.position.y == dropped_at.y + vel.y,
            b.velocity == vel,
    {
        let position = dropped_at.plus(vel);
        let velocity = vel;
        Bomb { position, velocity }
    }

    /// Moves the bomb by one tick. Whatever its speed was, afterwards it is
    /// within the limit.
    pub fn advance(self) -> (b: Bomb)
        requires
            self.movable(),
        ensures
            b == self.spec_advance(),
            b.within_speed_limit(),
            -BOMB_SPEED_MAX <= b.velocity.x <= BOMB_SPEED_MAX,
            -BOMB_SPEED_MAX <= b.velocity.y <= BOMB_SPEED_MAX,
            b.position.x == self.position.x + b.velocity.x,
            b.position.y == self.position.y + b.velocity.y,
    {
        let pulled = Vector { x: self.velocity.x, y: self.velocity.y + GRAVITY };
        let velocity = if pulled.len2() > 4_000_000 {
            let unit = pulled.normalize();
            let capped = unit.times(BOMB_SPEED_MAX);
            assert(capped.spec_len2() <= BOMB_SPEED_MAX * BOMB_SPEED_MAX) by (nonlinear_arith)
                requires
                    capped.x == 2 * unit.x,
                    capped.y == 2 * unit.y,
                    unit.spec_len2() <= UNIT * UNIT,
            ;
            capped
        } else {
            pulled
        };
        assert(-2000 <= velocity.x <= 2000 && -2000 <= velocity.y <= 2000) by (nonlinear_arith)
            requires
                velocity.x * velocity.x + velocity.y * velocity.y <= 4_000_000,
        ;
        Bomb { position: self.position.plus(velocity), velocity }
    }

    /// Tells whether the bomb is falling.
    pub fn is_falling(self) -> (ok: bool)
        ensures
            ok == self.falling(),
    {
        air_box().contains(self.position) && self.velocity.len2() <= 4_000_000
    }

    /// Gives the rectangle that the bomb covers.
    pub fn shape(self) -> (r: Rectangle)
        requires
            self.position.in_reach(),
        ensures
            r == self.spec_shape(),
    {
        bomb_at(self.position)
    }
}

impl Explosion {
    /// A fresh explosion at `position`.
    pub open spec fn spec_new(position: Vector) -> Explosion {
        Explosion { position, timer: EXPLOSION_DURATION }
    }

    /// The explosion has between none and all of its ticks left.
    pub open spec fn burning(self) -> bool {
        0 <= self.timer <= EXPLOSION_DURATION
    }

    /// The explosion one tick later.
    pub open spec fn spec_age(self) -> Explosion {
        Explosion { position: self.position, timer: (self.timer - 1) as i32 }
    }

    /// The disc that the blast fills at this moment.
    pub open spec fn spec_extent(self) -> Circle {
        Circle { pos: self.position, radius: spec_explosion_size(self.timer as int) as i32 }
    }

    /// Starts an explosion at `position`.
    pub fn new(position: Vector) -> (e: Explosion)
        ensures
            e == Self::spec_new(position),
            e.burning(),
    {
        Explosion { position, timer: EXPLOSION_DURATION }
    }

    /// Tells whether the explosion is burning.
    pub fn is_burning(self) -> (ok: bool)
        ensures
            ok == self.burning(),
    {
        0 <= self.timer && self.timer <= EXPLOSION_DURATION
    }

    /// Takes one tick off the explosion.
    pub fn age(self) -> (e: Explosion)
        requires
            self.timer > i32::MIN,
        ensures
            e == self.spec_age(),
            e.position == self.position,
            e.timer == self.timer - 1,
    {
        Explosion { position: self.position, timer: self.timer - 1 }
    }

    /// Gives the disc that the blast fills at this moment.
    pub fn extent(self) -> (c: Circle)
        requires
            self.burning(),
        ensures
            c == self.spec_extent(),
    {
        Circle { pos: self.position, radius: explosion_size(self.timer) }
    }
}

/// A falling bomb is slow and close enough to take its next step.
pub proof fn lemma_falling_can_move(b: Bomb)
    requires
        b.falling(),
    ensures
        b.movable(),
        -BOMB_SPEED_MAX <= b.velocity.x <= BOMB_SPEED_MAX,
        -BOMB_SPEED_MAX <= b.velocity.y <= BOMB_SPEED_MAX,
{
    let x = b.velocity.x as int;
    let y = b.velocity.y as int;
    assert(-2000 <= x <= 2000 && -2000 <= y <= 2000) by (nonlinear_arith)
        requires
            x * x + y * y <= 4_000_000,
    ;
}

/// Only the direction of the aim counts for the projectile that is fired,
/// never its length.
pub proof fn lemma_aim_length_is_immaterial(aim: Vector, stretched: Vector, k: int)
    requires
        0 < k,
        stretched.x == k * aim.x,
        stretched.y == k * aim.y,
    ensures
        Projectile::spec_new(stretched) == Projectile::spec_new(aim),
{
    lemma_unit_vector_scales(aim.x as int, aim.y as int, k);
}

/// Whatever a bomb's speed is, one tick later it is within the limit.
pub proof fn lemma_bomb_speed_is_capped(b: Bomb)
    ensures
        b.spec_advance().within_speed_limit(),
{
    let pulled = vec2(b.velocity.x as int, b.velocity.y + GRAVITY);
    if pulled.spec_len2() > BOMB_SPEED_MAX * BOMB_SPEED_MAX {
        let unit = pulled.spec_normalize();
        lemma_unit_vector_length(pulled.x as int, pulled.y as int);
        let capped = unit.spec_times(BOMB_SPEED_MAX as int);
        assert(capped.x == 2 * unit.x && capped.y == 2 * unit.y);
        assert(capped.spec_len2() <= BOMB_SPEED_MAX * BOMB_SPEED_MAX) by (nonlinear_arith)
            requires
                capped.x == 2 * unit.x,
                capped.y == 2 * unit.y,
                unit.spec_len2() <= UNIT * UNIT,
        ;
    }
}

/// A projectile that is ready and, one tick later, inside the play region is
/// in flight then.
pub proof fn lemma_projectile_stays_in_flight(p: Projectile)
    requires
        p.ready(),
        spec_air_box().spec_contains(p.spec_advance().position),
    ensures
        p.spec_advance().in_flight(),
{
}

/// A bomb at rest inside the play region is falling.
pub proof fn lemma_resting_bomb_falls(b: Bomb)
    requires
        spec_air_box().spec_contains(b.position),
        b.velocity == (Vector { x: 0, y: 0 }),
    ensures
        b.falling(),
{
    assert(0 * 0 + 0 * 0 <= BOMB_SPEED_MAX * BOMB_SPEED_MAX) by (nonlinear_arith);
}

/// The radius of an explosion is the full radius when it starts and nothing
/// when its time is up, and with every tick that passes it gets smaller.
pub proof fn lemma_explosion_shrinks(earlier: int, later: int)
    requires
        0 <= later < earlier <= EXPLOSION_DURATION,
    ensures
        spec_explosion_size(EXPLOSION_DURATION as int) == EXPLOSION_RADIUS,
        spec_explosion_size(0) == 0,
        spec_explosion_size(later) < spec_explosion_size(earlier),
{
}

/// The opacity of an explosion is full when it starts and ends at the
/// configured fraction of it; it never rises as time passes.
pub proof fn lemma_explosion_fades(earlier: int, later: int)
    requires
        0 <= later <= earlier <= EXPLOSION_DURATION,
    ensures
        spec_explosion_alpha(EXPLOSION_DURATION as int) == OPAQUE,
        spec_explosion_alpha(0) == OPAQUE - OPAQUE / EXPLOSION_ALPHA_FRACTION,
        spec_explosion_alpha(later) <= spec_explosion_alpha(earlier),
{
}

} // verus!
