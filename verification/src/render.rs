//! The picture of a game: a list of filled shapes, from back to front.

use vstd::prelude::*;
use crate::config::{
    CANNON_HEIGHT, CANNON_RADIUS, DESTROYED_VAULT_RADIUS, HEIGHT, NUM_VAULTS, OPAQUE,
    PROJECTILE_RADIUS, VAULT_RADIUS, WIDTH,
};
use crate::entities::{
    cannon_position, explosion_alpha, lemma_falling_can_move, spec_cannon_position,
    spec_explosion_alpha, spec_vault_position, vault_position, Bomb, Explosion, Projectile,
};
use crate::geom::{vec2, Circle, Rectangle, Vector};
use crate::model::{all_burning, all_falling};
use crate::seq_facts::{lemma_map_push, lemma_take_ends, lemma_take_next};

verus! {

/// A colour: red, green and blue from 0 to 255, and the opacity in
/// thousandths.
#[derive(Clone, Copy, Debug, PartialEq, Eq, Structural)]
pub struct Color {
    pub r: u8,
    pub g: u8,
    pub b: u8,
    pub a: i32,
}

/// What can be drawn.
#[derive(Clone, Copy, Debug, PartialEq, Eq, Structural)]
pub enum Shape {
    Rectangle(Rectangle),
    Circle(Circle),
}

/// A shape filled with a colour.
#[derive(Clone, Copy, Debug, PartialEq, Eq, Structural)]
pub struct Primitive {
    pub shape: Shape,
    pub color: Color,
}

/// The opaque colour with the given parts.
pub open spec fn spec_rgb(r: u8, g: u8, b: u8) -> Color {
    Color { r, g, b, a: OPAQUE }
}

/// The colour of the sky, with which the screen is cleared.
pub open spec fn spec_sky_color() -> Color {
    spec_rgb(180, 200, 255)
}

/// A disc of one colour.
pub open spec fn spec_disc(pos: Vector, radius: int, color: Color) -> Primitive {
    Primitive { shape: Shape::Circle(Circle { pos, radius: radius as i32 }), color }
}

/// The ground: a brown band along the bottom of the screen.
pub open spec fn ground() -> Primitive {
    Primitive {
        shape: Shape::Rectangle(
            Rectangle {
                pos: vec2(0, HEIGHT - CANNON_HEIGHT),
                size: Vector { x: WIDTH, y: CANNON_HEIGHT },
            },
        ),
        color: spec_rgb(150, 60, 20),
    }
}

/// The cannon: a black dot.
pub open spec fn cannon() -> Primitive {
    spec_disc(spec_cannon_position(), CANNON_RADIUS as int, spec_rgb(0, 0, 0))
}

/// A vault: a green disc while it stands, a larger black one when it is
/// destroyed.
pub open spec fn vault(index: int, destroyed: bool) -> Primitive {
    if destroyed {
        spec_disc(spec_vault_position(index), DESTROYED_VAULT_RADIUS as int, spec_rgb(0, 0, 0))
    } else {
        spec_disc(spec_vault_position(index), VAULT_RADIUS as int, spec_rgb(0, 255, 0))
    }
}

/// A projectile: a red disc.
pub open spec fn shot(p: Projectile) -> Primitive {
    spec_disc(p.position, PROJECTILE_RADIUS as int, spec_rgb(255, 0, 0))
}

/// A bomb: a blue rectangle.
pub open spec fn bomb(b: Bomb) -> Primitive {
    Primitive { shape: Shape::Rectangle(b.spec_shape()), color: spec_rgb(0, 0, 255) }
}

/// An explosion: a yellow disc as large and as opaque as its age makes it.
pub open spec fn blast(e: Explosion) -> Primitive {
    Primitive {
        shape: Shape::Circle(e.spec_extent()),
        color: Color { r: 255, g: 200, b: 80, a: spec_explosion_alpha(e.timer as int) as i32 },
    }
}

/// The picture of a state: the ground, the cannon, the vaults, then the
/// projectiles, the bombs and the explosions, each kind in the order in
/// which the state holds it.
pub open spec fn scene(
    vaults: Seq<bool>,
    projectiles: Seq<Projectile>,
    bombs: Seq<Bomb>,
    explosions: Seq<Explosion>,
) -> Seq<Primitive> {
    seq![ground(), cannon()] + Seq::new(vaults.len(), |i: int| vault(i, vaults[i]))
        + projectiles.map_values(|p: Projectile| shot(p)) + bombs.map_values(|b: Bomb| bomb(b))
        + explosions.map_values(|e: Explosion| blast(e))
}

/// Gives the opaque colour with the given parts.
pub fn rgb(r: u8, g: u8, b: u8) -> (c: Color)
    ensures
        c == spec_rgb(r, g, b),
{
    Color { r, g, b, a: OPAQUE }
}

/// Gives the colour of the sky.
pub fn sky_color() -> (c: Color)
    ensures
        c == spec_sky_color(),
{
    rgb(180, 200, 255)
}

/// Gives a disc of one colour.
fn disc(pos: Vector, radius: i32, color: Color) -> (p: Primitive)
    ensures
        p == spec_disc(pos, radius as int, color),
{
    Primitive { shape: Shape::Circle(Circle { pos, radius }), color }
}

/// Lists the shapes that show the given parts of a game.
pub fn draw_scene(
    vaults: &[bool; NUM_VAULTS],
    projectiles: &Vec<Projectile>,
    bombs: &Vec<Bomb>,
    explosions: &Vec<Explosion>,
) -> (list: Vec<Primitive>)
    requires
        all_falling(bombs@),
        all_burning(explosions@),
    ensures
        list@ == scene(vaults@, projectiles@, bombs@, explosions@),
{
    let mut list: Vec<Primitive> = Vec::new();
    // the ground
    list.push(
        Primitive {
            shape: Shape::Rectangle(
                Rectangle {
                    pos: Vector { x: 0, y: HEIGHT - CANNON_HEIGHT },
                    size: Vector { x: WIDTH, y: CANNON_HEIGHT },
                },
            ),
            color: rgb(150, 60, 20),
        },
    );
    // the cannon
    list.push(disc(cannon_position(), CANNON_RADIUS, rgb(0, 0, 0)));
    assert(list@ =~= seq![ground(), cannon()]);

    // the vaults
    let ghost base = list@;
    let mut i: usize = 0;
    assert(list@ =~= base + Seq::new(0, |k: int| vault(k, vaults@[k])));
    while i < NUM_VAULTS
        invariant
            i <= NUM_VAULTS,
            vaults@.len() == NUM_VAULTS,
            list@ == base + Seq::new(i as nat, |k: int| vault(k, vaults@[k])),
        decreases NUM_VAULTS - i,
    {
        if vaults[i] {
            list.push(disc(vault_position(i), DESTROYED_VAULT_RADIUS, rgb(0, 0, 0)));
        } else {
            list.push(disc(vault_position(i), VAULT_RADIUS, rgb(0, 255, 0)));
        }
        assert(list@ =~= base + Seq::new((i + 1) as nat, |k: int| vault(k, vaults@[k])));
        i += 1;
    }

    // the projectiles
    let ghost base = list@;
    let ghost f = |p: Projectile| shot(p);
    let mut i: usize = 0;
    proof {
        lemma_take_ends(projectiles@);
        assert(list@ =~= base + projectiles@.take(0).map_values(f));
    }
    while i < projectiles.len()
        invariant
            i <= projectiles.len(),
            f == |p: Projectile| shot(p),
            list@ == base + projectiles@.take(i as int).map_values(f),
        decreases projectiles.len() - i,
    {
        list.push(disc(projectiles[i].position, PROJECTILE_RADIUS, rgb(255, 0, 0)));
        proof {
            lemma_take_next(projectiles@, i as int);
            lemma_map_push(projectiles@.take(i as int), projectiles@[i as int], f);
            assert(list@ =~= base + projectiles@.take(i as int + 1).map_values(f));
        }
        i += 1;
    }
    proof {
        lemma_take_ends(projectiles@);
    }

    // the bombs
    let ghost base = list@;
    let ghost f = |b: Bomb| bomb(b);
    let mut i: usize = 0;
    proof {
        lemma_take_ends(bombs@);
        assert(list@ =~= base + bombs@.take(0).map_values(f));
    }
    while i < bombs.len()
        invariant
            i <= bombs.len(),
            all_falling(bombs@),
            f == |b: Bomb| bomb(b),
            list@ == base + bombs@.take(i as int).map_values(f),
        decreases bombs.len() - i,
    {
        let falling = bombs[i];
        proof {
            assert(falling.falling());
            lemma_falling_can_move(falling);
        }
        list.push(Primitive { shape: Shape::Rectangle(falling.shape()), color: rgb(0, 0, 255) });
        proof {
            lemma_take_next(bombs@, i as int);
            lemma_map_push(bombs@.take(i as int), bombs@[i as int], f);
            assert(list@ =~= base + bombs@.take(i as int + 1).map_values(f));
        }
        i += 1;
    }
    proof {
        lemma_take_ends(bombs@);
    }

    // the explosions
    let ghost base = list@;
    let ghost f = |e: Explosion| blast(e);
    let mut i: usize = 0;
    proof {
        lemma_take_ends(explosions@);
        assert(list@ =~= base + explosions@.take(0).map_values(f));
    }
    while i < explosions.len()
        invariant
            i <= explosions.len(),
            all_burning(explosions@),
            f == |e: Explosion| blast(e),
            list@ == base + explosions@.take(i as int).map_values(f),
        decreases explosions.len() - i,
    {
        let explosion = explosions[i];
        assert(explosion.burning());
        let alpha: i32 = explosion_alpha(explosion.timer);
        list.push(
            Primitive {
                shape: Shape::Circle(explosion.extent()),
                color: Color { r: 255, g: 200, b: 80, a: alpha },
            },
        );
        proof {
            lemma_take_next(explosions@, i as int);
            lemma_map_push(explosions@.take(i as int), explosions@[i as int], f);
            assert(list@ =~= base + explosions@.take(i as int + 1).map_values(f));
        }
        i += 1;
    }
    proof {
        lemma_take_ends(explosions@);
    }
    list
}

} // verus!
