//! The game itself: its state, and the tick that advances it.

use vstd::prelude::*;
use crate::config::{BOMB_DELAY_MAX, BOMB_DROP_Y, CANNON_COOLDOWN, NUM_VAULTS, UNIT};
use crate::entities::{
    air_box, cannon_position, lemma_falling_can_move, lemma_resting_bomb_falls, spec_air_box,
    spec_cannon_position, vault_circle, vault_position, Bomb, Explosion, Projectile,
};
use crate::geom::{circle_overlaps_rectangle, circles_overlap, unit_vector, Vector};
use crate::input::{Event, Input, SpawnDraw};
use crate::model::{
    aged, aim_at, all_burning, all_destroyed, all_falling, all_in_flight, all_ready,
    blast_reaches_bomb, blast_reaches_vault, breaches_upto, burning, caught, chained, craters,
    dropped, flown, initial_state, is_first_hit, landed, launched, lemma_aged_grows,
    lemma_breaches_grow, lemma_chain_grows, lemma_craters_grow, lemma_draw_unused,
    lemma_fall_grows, lemma_first_hit_is, lemma_flown_grows, lemma_tick_keeps_destroyed,
    lemma_volley_grows, set_off, shot_hits_bomb, spared, spawn_due, still_falling, valid_state,
    vaults_after, volley, GameState,
};
use crate::render::{draw_scene, scene, Primitive};
use crate::seq_facts::{lemma_take_ends, lemma_take_next};

verus! {

/// A game in progress.
pub struct Game {
    cannon_timer: i32,
    bomb_timer: i32,
    vaults: [bool; NUM_VAULTS],
    aim_vector: Vector,
    bombs: Vec<Bomb>,
    projectiles: Vec<Projectile>,
    explosions: Vec<Explosion>,
}

impl View for Game {
    type V = GameState;

    closed spec fn view(&self) -> GameState {
        GameState {
            cannon_timer: self.cannon_timer as int,
            bomb_timer: self.bomb_timer as int,
            vaults: self.vaults@,
            aim_vector: self.aim_vector,
            bombs: self.bombs@,
            projectiles: self.projectiles@,
            explosions: self.explosions@,
        }
    }
}

/// Tells whether every projectile is in flight.
fn are_in_flight(projectiles: &Vec<Projectile>) -> (ok: bool)
    ensures
        ok == all_in_flight(projectiles@),
{
    let mut i: usize = 0;
    while i < projectiles.len()
        invariant
            i <= projectiles.len(),
            forall|k: int| 0 <= k < i ==> (#[trigger] projectiles@[k]).in_flight(),
        decreases projectiles.len() - i,
    {
        if !projectiles[i].is_in_flight() {
            return false;
        }
        i += 1;
    }
    true
}

/// Tells whether every bomb is falling.
fn are_falling(bombs: &Vec<Bomb>) -> (ok: bool)
    ensures
        ok == all_falling(bombs@),
{
    let mut i: usize = 0;
    while i < bombs.len()
        invariant
            i <= bombs.len(),
            forall|k: int| 0 <= k < i ==> (#[trigger] bombs@[k]).falling(),
        decreases bombs.len() - i,
    {
        if !bombs[i].is_falling() {
            return false;
        }
        i += 1;
    }
    true
}

/// Tells whether every explosion is burning.
fn are_burning(explosions: &Vec<Explosion>) -> (ok: bool)
    ensures
        ok == all_burning(explosions@),
{
    let mut i: usize = 0;
    while i < explosions.len()
        invariant
            i <= explosions.len(),
            forall|k: int| 0 <= k < i ==> (#[trigger] explosions@[k]).burning(),
        decreases explosions.len() - i,
    {
        if !explosions[i].is_burning() {
            return false;
        }
        i += 1;
    }
    true
}

/// Moves the projectiles by one tick and drops those that leave the play
/// region.
fn move_projectiles(projectiles: &Vec<Projectile>) -> (kept: Vec<Projectile>)
    requires
        all_ready(projectiles@),
    ensures
        kept@ == flown(projectiles@),
        all_in_flight(kept@),
{
    let area = air_box();
    let mut kept: Vec<Projectile> = Vec::new();
    let mut i: usize = 0;
    proof {
        lemma_take_ends(projectiles@);
        lemma_flown_grows(Seq::empty(), projectiles@[0]);
    }
    while i < projectiles.len()
        invariant
            i <= projectiles.len(),
            area == spec_air_box(),
            all_ready(projectiles@),
            kept@ == flown(projectiles@.take(i as int)),
            all_in_flight(kept@),
        decreases projectiles.len() - i,
    {
        let projectile = projectiles[i];
        assert(projectile.ready());
        let moved = projectile.advance();
        proof {
            lemma_take_next(projectiles@, i as int);
            lemma_flown_grows(projectiles@.take(i as int), projectile);
        }
        if area.contains(moved.position) {
            kept.push(moved);
        }
        i += 1;
    }
    proof {
        lemma_take_ends(projectiles@);
    }
    kept
}

/// Moves the bombs by one tick; those that leave the play region explode
/// where they have come to be.
fn move_bombs(bombs: &Vec<Bomb>, explosions: &mut Vec<Explosion>) -> (kept: Vec<Bomb>)
    requires
        all_falling(bombs@),
        all_burning(old(explosions)@),
    ensures
        kept@ == still_falling(bombs@),
        final(explosions)@ == old(explosions)@ + landed(bombs@),
        all_falling(kept@),
        all_burning(final(explosions)@),
{
    let area = air_box();
    let ghost before = explosions@;
    let mut kept: Vec<Bomb> = Vec::new();
    let mut i: usize = 0;
    proof {
        lemma_take_ends(bombs@);
        lemma_fall_grows(Seq::empty(), bombs@[0]);
        assert(explosions@ =~= before + landed(bombs@.take(0)));
    }
    while i < bombs.len()
        invariant
            i <= bombs.len(),
            area == spec_air_box(),
            all_falling(bombs@),
            kept@ == still_falling(bombs@.take(i as int)),
            explosions@ == before + landed(bombs@.take(i as int)),
            all_falling(kept@),
            all_burning(explosions@),
        decreases bombs.len() - i,
    {
        let bomb = bombs[i];
        proof {
            assert(bomb.falling());
            lemma_falling_can_move(bomb);
            lemma_take_next(bombs@, i as int);
            lemma_fall_grows(bombs@.take(i as int), bomb);
        }
        let moved = bomb.advance();
        if area.contains(moved.position) {
            kept.push(moved);
        } else {
            explosions.push(Explosion::new(moved.position));
            assert(explosions@ =~= before + landed(bombs@.take(i as int + 1)));
        }
        i += 1;
    }
    proof {
        lemma_take_ends(bombs@);
    }
    kept
}

/// Takes one tick off every explosion and drops those whose time is up.
fn age_explosions(explosions: &Vec<Explosion>) -> (kept: Vec<Explosion>)
    requires
        all_burning(explosions@),
    ensures
        kept@ == aged(explosions@),
        all_burning(kept@),
{
    let mut kept: Vec<Explosion> = Vec::new();
    let mut i: usize = 0;
    proof {
        lemma_take_ends(explosions@);
        lemma_aged_grows(Seq::empty(), explosions@[0]);
    }
    while i < explosions.len()
        invariant
            i <= explosions.len(),
            all_burning(explosions@),
            kept@ == aged(explosions@.take(i as int)),
            all_burning(kept@),
        decreases explosions.len() - i,
    {
        let explosion = explosions[i];
        assert(explosion.burning());
        let older = explosion.age();
        proof {
            lemma_take_next(explosions@, i as int);
            lemma_aged_grows(explosions@.take(i as int), explosion);
        }
        if older.timer >= 0 {
            kept.push(older);
        }
        i += 1;
    }
    proof {
        lemma_take_ends(explosions@);
    }
    kept
}

/// Tells whether some explosion overlaps the bomb.
fn is_caught(bomb: Bomb, explosions: &Vec<Explosion>) -> (hit: bool)
    requires
        bomb.falling(),
        all_burning(explosions@),
    ensures
        hit == caught(bomb, explosions@),
{
    let shape = bomb.shape();
    let mut j: usize = 0;
    while j < explosions.len()
        invariant
            j <= explosions.len(),
            shape == bomb.spec_shape(),
            all_burning(explosions@),
            forall|k: int| 0 <= k < j ==> !blast_reaches_bomb(#[trigger] explosions@[k], bomb),
        decreases explosions.len() - j,
    {
        let explosion = explosions[j];
        assert(explosion.burning());
        let extent = explosion.extent();
        if circle_overlaps_rectangle(&extent, &shape) {
            assert(blast_reaches_bomb(explosions@[j as int], bomb));
            return true;
        }
        j += 1;
    }
    false
}

/// Sets off every bomb that an explosion overlaps: the bomb goes, and an
/// explosion takes its place.
fn chain_reaction(bombs: &Vec<Bomb>, explosions: &mut Vec<Explosion>) -> (kept: Vec<Bomb>)
    requires
        all_falling(bombs@),
        all_burning(old(explosions)@),
    ensures
        kept@ == spared(bombs@, old(explosions)@),
        final(explosions)@ == old(explosions)@ + set_off(bombs@, old(explosions)@),
        all_falling(kept@),
        all_burning(final(explosions)@),
{
    let ghost before = explosions@;
    let mut kept: Vec<Bomb> = Vec::new();
    let mut new_explosions: Vec<Explosion> = Vec::new();
    let mut i: usize = 0;
    proof {
        lemma_take_ends(bombs@);
        lemma_chain_grows(Seq::empty(), bombs@[0], before);
    }
    while i < bombs.len()
        invariant
            i <= bombs.len(),
            explosions@ == before,
            all_falling(bombs@),
            all_burning(explosions@),
            kept@ == spared(bombs@.take(i as int), before),
            new_explosions@ == set_off(bombs@.take(i as int), before),
            all_falling(kept@),
            all_burning(new_explosions@),
        decreases bombs.len() - i,
    {
        let bomb = bombs[i];
        assert(bomb.falling());
        proof {
            lemma_take_next(bombs@, i as int);
            lemma_chain_grows(bombs@.take(i as int), bomb, before);
        }
        if is_caught(bomb, explosions) {
            new_explosions.push(Explosion::new(bomb.position));
        } else {
            kept.push(bomb);
        }
        i += 1;
    }
    proof {
        lemma_take_ends(bombs@);
    }
    explosions.append(&mut new_explosions);
    kept
}

/// Destroys every intact vault that an explosion overlaps; each such vault
/// explodes in turn.
fn destroy_vaults(vaults: &mut [bool; NUM_VAULTS], explosions: &mut Vec<Explosion>)
    requires
        all_burning(old(explosions)@),
    ensures
        final(vaults)@ == vaults_after(old(vaults)@, old(explosions)@),
        final(explosions)@ == old(explosions)@ + craters(old(vaults)@, old(explosions)@),
        all_burning(final(explosions)@),
{
    let ghost intact = vaults@;
    let ghost before = explosions@;
    let mut new_explosions: Vec<Explosion> = Vec::new();
    let mut j: usize = 0;
    proof {
        lemma_take_ends(before);
        if before.len() > 0 {
            lemma_craters_grow(intact, before, 0);
        } else {
            assert(vaults_after(intact, before) =~= intact);
        }
    }
    while j < explosions.len()
        invariant
            j <= explosions.len(),
            explosions@ == before,
            all_burning(explosions@),
            vaults@.len() == NUM_VAULTS,
            intact.len() == NUM_VAULTS,
            vaults@ == vaults_after(intact, before.take(j as int)),
            new_explosions@ == craters(intact, before.take(j as int)),
            all_burning(new_explosions@),
        decreases explosions.len() - j,
    {
        let explosion = explosions[j];
        assert(explosion.burning());
        let extent = explosion.extent();
        let ghost standing = vaults@;
        let ghost earlier = new_explosions@;
        let mut i: usize = 0;
        proof {
            lemma_breaches_grow(standing, explosion, 0);
            assert(new_explosions@ =~= earlier + breaches_upto(standing, explosion, 0));
        }
        while i < NUM_VAULTS
            invariant
                i <= NUM_VAULTS,
                extent == explosion.spec_extent(),
                vaults@.len() == NUM_VAULTS,
                standing.len() == NUM_VAULTS,
                new_explosions@ == earlier + breaches_upto(standing, explosion, i as int),
                all_burning(new_explosions@),
                forall|k: int|
                    0 <= k < i ==> vaults@[k] == (standing[k] || blast_reaches_vault(
                        explosion,
                        k,
                    )),
                forall|k: int| i <= k < NUM_VAULTS ==> vaults@[k] == standing[k],
            decreases NUM_VAULTS - i,
        {
            proof {
                lemma_breaches_grow(standing, explosion, i as int);
            }
            if !vaults[i] && circles_overlap(&extent, &vault_circle(i)) {
                vaults[i] = true;
                new_explosions.push(Explosion::new(vault_position(i)));
                assert(new_explosions@ =~= earlier + breaches_upto(
                    standing,
                    explosion,
                    i as int + 1,
                ));
            }
            i += 1;
        }
        proof {
            lemma_craters_grow(intact, before, j as int);
            assert(vaults@ =~= vaults_after(intact, before.take(j as int + 1)));
        }
        j += 1;
    }
    proof {
        lemma_take_ends(before);
    }
    explosions.append(&mut new_explosions);
}

/// Finds the first bomb that the projectile overlaps.
fn find_first_hit(projectile: Projectile, bombs: &Vec<Bomb>) -> (found: Option<usize>)
    requires
        all_falling(bombs@),
    ensures
        match found {
            Some(i) => is_first_hit(projectile, bombs@, i as int),
            None => forall|j: int|
                0 <= j < bombs.len() ==> !shot_hits_bomb(projectile, #[trigger] bombs@[j]),
        },
{
    let circle = projectile.circle();
    let mut i: usize = 0;
    while i < bombs.len()
        invariant
            i <= bombs.len(),
            circle == projectile.spec_circle(),
            all_falling(bombs@),
            forall|j: int| 0 <= j < i ==> !shot_hits_bomb(projectile, #[trigger] bombs@[j]),
        decreases bombs.len() - i,
    {
        let bomb = bombs[i];
        assert(bomb.falling());
        let shape = bomb.shape();
        if circle_overlaps_rectangle(&circle, &shape) {
            return Some(i);
        }
        i += 1;
    }
    None
}

/// Lets every projectile bring down the first bomb it overlaps: the bomb
/// explodes, and the projectile is used up.
fn shoot_bombs(
    projectiles: &Vec<Projectile>,
    bombs: &mut Vec<Bomb>,
    explosions: &mut Vec<Explosion>,
) -> (kept: Vec<Projectile>)
    requires
        all_in_flight(projectiles@),
        all_falling(old(bombs)@),
        all_burning(old(explosions)@),
    ensures
        kept@ == volley(projectiles@, old(bombs)@).shots,
        final(bombs)@ == volley(projectiles@, old(bombs)@).bombs,
        final(explosions)@ == old(explosions)@ + volley(projectiles@, old(bombs)@).blasts,
        all_in_flight(kept@),
        all_falling(final(bombs)@),
        all_burning(final(explosions)@),
{
    let ghost targets = bombs@;
    let ghost before = explosions@;
    let mut kept: Vec<Projectile> = Vec::new();
    let mut n: usize = 0;
    proof {
        lemma_take_ends(projectiles@);
        if projectiles@.len() > 0 {
            lemma_volley_grows(projectiles@, targets, 0);
        }
        assert(explosions@ =~= before + volley(projectiles@.take(0), targets).blasts);
    }
    while n < projectiles.len()
        invariant
            n <= projectiles.len(),
            all_in_flight(projectiles@),
            kept@ == volley(projectiles@.take(n as int), targets).shots,
            bombs@ == volley(projectiles@.take(n as int), targets).bombs,
            explosions@ == before + volley(projectiles@.take(n as int), targets).blasts,
            all_in_flight(kept@),
            all_falling(bombs@),
            all_burning(explosions@),
        decreases projectiles.len() - n,
    {
        let projectile = projectiles[n];
        assert(projectile.in_flight());
        proof {
            lemma_volley_grows(projectiles@, targets, n as int);
        }
        let ghost standing = bombs@;
        match find_first_hit(projectile, bombs) {
            Some(i) => {
                proof {
                    lemma_first_hit_is(projectile, standing, i as int);
                }
                let bomb = bombs.remove(i);
                explosions.push(Explosion::new(bomb.position));
                assert(explosions@ =~= before + volley(
                    projectiles@.take(n as int + 1),
                    targets,
                ).blasts);
                assert forall|k: int| 0 <= k < bombs@.len() implies (
                #[trigger] bombs@[k]).falling() by {
                    if k < i {
                        assert(bombs@[k] == standing[k]);
                    } else {
                        assert(bombs@[k] == standing[k + 1]);
                    }
                }
            },
            None => {
                kept.push(projectile);
            },
        }
        n += 1;
    }
    proof {
        lemma_take_ends(projectiles@);
    }
    kept
}

impl Game {
    /// The game is in a state that it can be in.
    pub open spec fn wf(&self) -> bool {
        valid_state(self@)
    }

    /// Starts a game.
    pub fn new() -> (game: Game)
        ensures
            game.wf(),
            game@ == initial_state(),
    {
        let game = Game {
            cannon_timer: 0,
            bomb_timer: 0,
            vaults: [false; NUM_VAULTS],
            aim_vector: Vector::new(0, UNIT),
            bombs: Vec::new(),
            projectiles: Vec::new(),
            explosions: Vec::new(),
        };
        assert(game@.vaults =~= initial_state().vaults);
        game
    }

    /// Makes a game of the given parts, if they form a state that a game can
    /// be in.
    pub fn from_parts(
        cannon_timer: i32,
        bomb_timer: i32,
        vaults: [bool; NUM_VAULTS],
        aim_vector: Vector,
        bombs: Vec<Bomb>,
        projectiles: Vec<Projectile>,
        explosions: Vec<Explosion>,
    ) -> (made: Option<Game>)
        ensures
            ({
                let state = GameState {
                    cannon_timer: cannon_timer as int,
                    bomb_timer: bomb_timer as int,
                    vaults: vaults@,
                    aim_vector,
                    bombs: bombs@,
                    projectiles: projectiles@,
                    explosions: explosions@,
                };
                &&& made is Some <==> valid_state(state)
                &&& made matches Some(game) ==> game.wf() && game@ == state
            }),
    {
        if 0 <= cannon_timer && 0 <= bomb_timer && are_in_flight(&projectiles) && are_falling(
            &bombs,
        ) && are_burning(&explosions) {
            Some(
                Game {
                    cannon_timer,
                    bomb_timer,
                    vaults,
                    aim_vector,
                    bombs,
                    projectiles,
                    explosions,
                },
            )
        } else {
            None
        }
    }

    /// Tells whether the game is in a state that it can be in. A game made
    /// by [`Game::new`] or [`Game::from_parts`] and changed only by the
    /// functions of this type always is.
    pub fn is_valid(&self) -> (ok: bool)
        ensures
            ok == self.wf(),
    {
        0 <= self.cannon_timer && 0 <= self.bomb_timer && are_in_flight(&self.projectiles)
            && are_falling(&self.bombs) && are_burning(&self.explosions)
    }

    /// Lists what is to be drawn, from back to front.
    pub fn draw(&self) -> (list: Vec<Primitive>)
        requires
            self.wf(),
        ensures
            list@ == scene(self@.vaults, self@.projectiles, self@.bombs, self@.explosions),
    {
        draw_scene(&self.vaults, &self.projectiles, &self.bombs, &self.explosions)
    }

    /// Tells whether the game is over: every vault is destroyed.
    pub fn is_over(&self) -> (over: bool)
        ensures
            over == all_destroyed(self@.vaults),
    {
        let mut i: usize = 0;
        while i < NUM_VAULTS
            invariant
                i <= NUM_VAULTS,
                self.vaults@.len() == NUM_VAULTS,
                forall|k: int| 0 <= k < i ==> self.vaults@[k],
            decreases NUM_VAULTS - i,
        {
            if !self.vaults[i] {
                return false;
            }
            i += 1;
        }
        true
    }

    /// Takes an event from the presentation layer: when the pointer moves,
    /// the cannon turns toward it, and the aim is the unit vector from the
    /// cannon to the pointer. Nothing else changes.
    pub fn event(&mut self, event: &Event)
        requires
            old(self).wf(),
        ensures
            final(self).wf(),
            final(self)@ == match *event {
                Event::MouseMoved(pointer) => (GameState {
                    aim_vector: aim_at(pointer),
                    ..old(self)@
                }),
                Event::Other => old(self)@,
            },
            event matches Event::MouseMoved(pointer) ==> final(self)@.aim_vector.spec_len2()
                <= UNIT * UNIT,
            event matches Event::MouseMoved(pointer) && pointer != spec_cannon_position()
                ==> final(self)@.aim_vector.spec_len2() >= (UNIT - 2) * (UNIT - 2),
    {
        match event {
            Event::MouseMoved(pointer) => {
                let cannon = cannon_position();
                self.aim_vector = unit_vector(
                    pointer.x as i64 - cannon.x as i64,
                    pointer.y as i64 - cannon.y as i64,
                );
            },
            Event::Other => {},
        }
    }

    /// Advances the game by one tick, with the numbers that chance is to
    /// contribute given by the caller.
    pub fn update_with(&mut self, input: Input, draw: SpawnDraw)
        requires
            old(self).wf(),
            draw.valid(),
        ensures
            final(self).wf(),
            final(self)@ == crate::model::step(old(self)@, input.spec_fire_held(), draw),
            all_destroyed(old(self)@.vaults) ==> final(self)@ == old(self)@,
            forall|i: int|
                0 <= i < NUM_VAULTS && old(self)@.vaults[i] ==> #[trigger] final(self)@.vaults[i],
            forall|i: int|
                0 <= i < final(self)@.bombs.len() ==> (
                #[trigger] final(self)@.bombs[i]).within_speed_limit(),
    {
        if self.is_over() {
            return ;
        }
        let ghost start = self@;
        let ghost fire = input.spec_fire_held();

        // the cannon cools, and fires if asked to
        self.cannon_timer = if self.cannon_timer - 1 > 0 {
            self.cannon_timer - 1
        } else {
            0
        };
        if input.fire_held() && self.cannon_timer == 0 {
            self.cannon_timer = CANNON_COOLDOWN;
            self.projectiles.push(Projectile::new(self.aim_vector));
        }
        assert(self.projectiles@ == launched(start, fire));
        assert(all_ready(self.projectiles@)) by {
            assert forall|i: int| 0 <= i < self.projectiles@.len() implies (
            #[trigger] self.projectiles@[i]).ready() by {
                if i < start.projectiles.len() {
                    assert(start.projectiles[i].in_flight());
                }
            }
        }

        // the projectiles fly
        self.projectiles = move_projectiles(&self.projectiles);

        // a bomb is dropped when it is due, and the bombs fall
        self.bomb_timer = self.bomb_timer - 1;
        if self.bomb_timer <= 0 {
            self.bomb_timer = draw.delay;
            let bomb = Bomb::new(Vector::new(draw.column * UNIT, BOMB_DROP_Y), Vector::new(0, 0));
            proof {
                lemma_resting_bomb_falls(bomb);
            }
            self.bombs.push(bomb);
        }
        assert(self.bombs@ == dropped(start, draw));
        assert(all_falling(self.bombs@)) by {
            assert forall|i: int| 0 <= i < self.bombs@.len() implies (
            #[trigger] self.bombs@[i]).falling() by {
                if i < start.bombs.len() {
                    assert(start.bombs[i].falling());
                }
            }
        }
        assert(all_burning(self.explosions@)) by {
            assert forall|i: int| 0 <= i < self.explosions@.len() implies (
            #[trigger] self.explosions@[i]).burning() by {
                assert(start.explosions[i].burning());
            }
        }
        self.bombs = move_bombs(&self.bombs, &mut self.explosions);

        // the explosions burn down
        self.explosions = age_explosions(&self.explosions);
        assert(self.explosions@ == burning(start, draw));

        // explosions set off bombs
        self.bombs = chain_reaction(&self.bombs, &mut self.explosions);
        assert(self.explosions@ == chained(start, draw));

        // explosions destroy vaults
        destroy_vaults(&mut self.vaults, &mut self.explosions);

        // projectiles bring down bombs
        self.projectiles = shoot_bombs(&self.projectiles, &mut self.bombs, &mut self.explosions);

        proof {
            lemma_tick_keeps_destroyed(start, fire, draw);
            assert forall|i: int| 0 <= i < self@.bombs.len() implies (
            #[trigger] self@.bombs[i]).within_speed_limit() by {
                assert(self@.bombs[i].falling());
            }
        }
    }

    /// Advances the game by one tick. When a bomb is due, chance decides
    /// where it falls and how long the next one takes.
    pub fn update(&mut self, input: Input)
        requires
            old(self).wf(),
        ensures
            final(self).wf(),
            exists|draw: SpawnDraw|
                draw.valid() && final(self)@ == #[trigger] crate::model::step(
                    old(self)@,
                    input.spec_fire_held(),
                    draw,
                ),
            !spawn_due(old(self)@) || all_destroyed(old(self)@.vaults) ==> forall|draw: SpawnDraw|
                final(self)@ == #[trigger] crate::model::step(
                    old(self)@,
                    input.spec_fire_held(),
                    draw,
                ),
            all_destroyed(old(self)@.vaults) ==> final(self)@ == old(self)@,
            forall|i: int|
                0 <= i < NUM_VAULTS && old(self)@.vaults[i] ==> #[trigger] final(self)@.vaults[i],
            forall|i: int|
                0 <= i < final(self)@.bombs.len() ==> (
                #[trigger] final(self)@.bombs[i]).within_speed_limit(),
    {
        let draw = if !self.is_over() && self.bomb_timer - 1 <= 0 {
            SpawnDraw::random()
        } else {
            // no bomb is due: the tick does not look at the draw
            SpawnDraw { delay: BOMB_DELAY_MAX, column: 0 }
        };
        proof {
            if !spawn_due(self@) || all_destroyed(self@.vaults) {
                assert forall|other: SpawnDraw|
                    crate::model::step(self@, input.spec_fire_held(), draw)
                        == #[trigger] crate::model::step(
                        self@,
                        input.spec_fire_held(),
                        other,
                    ) by {
                    lemma_draw_unused(self@, input.spec_fire_held(), draw, other);
                }
            }
        }
        self.update_with(input, draw);
    }

    /// Ticks until the cannon may fire again.
    pub fn cannon_timer(&self) -> (timer: i32)
        ensures
            timer == self@.cannon_timer,
    {
        self.cannon_timer
    }

    /// Ticks until the next bomb is dropped.
    pub fn bomb_timer(&self) -> (timer: i32)
        ensures
            timer == self@.bomb_timer,
    {
        self.bomb_timer
    }

    /// For each vault, whether it has been destroyed.
    pub fn vaults(&self) -> (vaults: [bool; NUM_VAULTS])
        ensures
            vaults@ == self@.vaults,
    {
        self.vaults
    }

    /// The direction in which the cannon points.
    pub fn aim_vector(&self) -> (aim: Vector)
        ensures
            aim == self@.aim_vector,
    {
        self.aim_vector
    }

    /// The bombs in the air.
    pub fn bombs(&self) -> (bombs: &Vec<Bomb>)
        ensures
            bombs@ == self@.bombs,
    {
        &self.bombs
    }

    /// The projectiles in the air.
    pub fn projectiles(&self) -> (projectiles: &Vec<Projectile>)
        ensures
            projectiles@ == self@.projectiles,
    {
        &self.projectiles
    }

    /// The explosions that burn.
    pub fn explosions(&self) -> (explosions: &Vec<Explosion>)
        ensures
            explosions@ == self@.explosions,
    {
        &self.explosions
    }
}

} // verus!
