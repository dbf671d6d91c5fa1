//! The game as mathematics: the state as sequences and integers, and one
//! tick as a function from state, input and chance to the next state.

use vstd::prelude::*;
use crate::config::{BOMB_DROP_Y, CANNON_COOLDOWN, NUM_VAULTS, UNIT};
use crate::entities::{
    lemma_bomb_speed_is_capped, lemma_projectile_stays_in_flight, lemma_resting_bomb_falls,
    spec_air_box, spec_cannon_position, spec_vault_circle, spec_vault_position, Bomb, Explosion,
    Projectile,
};
use crate::geom::{
    lemma_unit_vector_length, spec_circle_overlaps_rectangle, spec_circles_overlap,
    spec_unit_vector, vec2, Vector,
};
use crate::input::SpawnDraw;
use vstd::pervasive::arbitrary;
use crate::seq_facts::{
    lemma_empty, lemma_filter_map_push, lemma_filter_push, lemma_map_filter_map_push,
    lemma_map_filter_push, lemma_take_next,
};

verus! {

/// Everything the game remembers from one tick to the next.
pub struct GameState {
    /// Ticks until the cannon may fire again.
    pub cannon_timer: int,
    /// Ticks until the next bomb is dropped.
    pub bomb_timer: int,
    /// For each vault, whether it has been destroyed.
    pub vaults: Seq<bool>,
    /// The direction in which the cannon points.
    pub aim_vector: Vector,
    pub bombs: Seq<Bomb>,
    pub projectiles: Seq<Projectile>,
    pub explosions: Seq<Explosion>,
}

/// What a round of shots leaves behind.
pub struct Volley {
    /// The projectiles that hit nothing.
    pub shots: Seq<Projectile>,
    /// The bombs that were not hit.
    pub bombs: Seq<Bomb>,
    /// The explosions of the bombs that were hit, in the order of the hits.
    pub blasts: Seq<Explosion>,
}

/// The state in which a game begins: all vaults intact, nothing in the air,
/// the cannon pointing along the y axis.
pub open spec fn initial_state() -> GameState {
    GameState {
        cannon_timer: 0,
        bomb_timer: 0,
        vaults: Seq::new(NUM_VAULTS as nat, |i: int| false),
        aim_vector: Vector { x: 0, y: UNIT },
        bombs: Seq::empty(),
        projectiles: Seq::empty(),
        explosions: Seq::empty(),
    }
}

/// Every projectile of the sequence is in flight.
pub open spec fn all_in_flight(projectiles: Seq<Projectile>) -> bool {
    forall|i: int| 0 <= i < projectiles.len() ==> (#[trigger] projectiles[i]).in_flight()
}

/// Every projectile of the sequence is ready for its next step.
pub open spec fn all_ready(projectiles: Seq<Projectile>) -> bool {
    forall|i: int| 0 <= i < projectiles.len() ==> (#[trigger] projectiles[i]).ready()
}

/// Every bomb of the sequence is falling.
pub open spec fn all_falling(bombs: Seq<Bomb>) -> bool {
    forall|i: int| 0 <= i < bombs.len() ==> (#[trigger] bombs[i]).falling()
}

/// Every explosion of the sequence is burning.
pub open spec fn all_burning(explosions: Seq<Explosion>) -> bool {
    forall|i: int| 0 <= i < explosions.len() ==> (#[trigger] explosions[i]).burning()
}

/// The states that the game can be in: no timer below zero, every entity
/// where and as fast as an entity of its kind can be.
pub open spec fn valid_state(s: GameState) -> bool {
    &&& 0 <= s.cannon_timer
    &&& 0 <= s.bomb_timer
    &&& s.vaults.len() == NUM_VAULTS
    &&& all_in_flight(s.projectiles)
    &&& all_falling(s.bombs)
    &&& all_burning(s.explosions)
}

/// Every vault is destroyed: the game is over.
pub open spec fn all_destroyed(vaults: Seq<bool>) -> bool {
    forall|i: int| 0 <= i < vaults.len() ==> vaults[i]
}

/// The direction from the cannon to the pointer.
pub open spec fn aim_at(pointer: Vector) -> Vector {
    spec_unit_vector(pointer.x - spec_cannon_position().x, pointer.y - spec_cannon_position().y)
}

/// The cannon's timer one tick later, if it does not fire.
pub open spec fn cooled(timer: int) -> int {
    if timer - 1 > 0 {
        timer - 1
    } else {
        0
    }
}

/// The cannon fires in this tick: the player asks for it and the cannon has
/// cooled down.
pub open spec fn fires(s: GameState, fire_held: bool) -> bool {
    fire_held && cooled(s.cannon_timer) == 0
}

/// A bomb is dropped in this tick.
pub open spec fn spawn_due(s: GameState) -> bool {
    s.bomb_timer - 1 <= 0
}

/// The bomb that is dropped for a draw: at rest, in the drawn column.
pub open spec fn dropped_bomb(draw: SpawnDraw) -> Bomb {
    Bomb::spec_new(vec2(draw.column * UNIT, BOMB_DROP_Y as int), Vector { x: 0, y: 0 })
}

/// The place is inside the play region.
pub open spec fn in_air(position: Vector) -> bool {
    spec_air_box().spec_contains(position)
}

/// The projectiles one tick later: each has moved, and those that left the
/// play region are gone.
pub open spec fn flown(projectiles: Seq<Projectile>) -> Seq<Projectile> {
    projectiles.map_values(|p: Projectile| p.spec_advance()).filter(
        |p: Projectile| in_air(p.position),
    )
}

/// The bombs that are still in the play region after they have moved.
pub open spec fn still_falling(bombs: Seq<Bomb>) -> Seq<Bomb> {
    bombs.map_values(|b: Bomb| b.spec_advance()).filter(|b: Bomb| in_air(b.position))
}

/// The explosions of the bombs that have left the play region, each where
/// its bomb came to be.
pub open spec fn landed(bombs: Seq<Bomb>) -> Seq<Explosion> {
    bombs.map_values(|b: Bomb| b.spec_advance()).filter(|b: Bomb| !in_air(b.position)).map_values(
        |b: Bomb| Explosion::spec_new(b.position),
    )
}

/// The explosions one tick later: each has one tick less, and those whose
/// time had run out are gone.
pub open spec fn aged(explosions: Seq<Explosion>) -> Seq<Explosion> {
    explosions.map_values(|e: Explosion| e.spec_age()).filter(|e: Explosion| e.timer >= 0)
}

/// The blast, as large as it is now, overlaps the bomb.
pub open spec fn blast_reaches_bomb(e: Explosion, b: Bomb) -> bool {
    spec_circle_overlaps_rectangle(e.spec_extent(), b.spec_shape())
}

/// Some explosion overlaps the bomb.
pub open spec fn caught(b: Bomb, explosions: Seq<Explosion>) -> bool {
    exists|j: int| 0 <= j < explosions.len() && blast_reaches_bomb(#[trigger] explosions[j], b)
}

/// The bombs that no explosion overlaps.
pub open spec fn spared(bombs: Seq<Bomb>, explosions: Seq<Explosion>) -> Seq<Bomb> {
    bombs.filter(|b: Bomb| !caught(b, explosions))
}

/// The explosions of the bombs that some explosion overlaps, in the order of
/// the bombs.
pub open spec fn set_off(bombs: Seq<Bomb>, explosions: Seq<Explosion>) -> Seq<Explosion> {
    bombs.filter(|b: Bomb| caught(b, explosions)).map_values(
        |b: Bomb| Explosion::spec_new(b.position),
    )
}

/// The blast, as large as it is now, overlaps the place of the vault.
pub open spec fn blast_reaches_vault(e: Explosion, index: int) -> bool {
    spec_circles_overlap(e.spec_extent(), spec_vault_circle(index))
}

/// Some explosion overlaps the place of the vault.
pub open spec fn vault_hit(explosions: Seq<Explosion>, index: int) -> bool {
    exists|j: int|
        0 <= j < explosions.len() && blast_reaches_vault(#[trigger] explosions[j], index)
}

/// The vaults after the explosions have done their work: a vault is
/// destroyed if it was before or if some explosion overlaps it.
pub open spec fn vaults_after(vaults: Seq<bool>, explosions: Seq<Explosion>) -> Seq<bool> {
    Seq::new(vaults.len(), |i: int| vaults[i] || vault_hit(explosions, i))
}

/// The explosions that one blast causes on those of the first `n` vaults
/// that are intact when it comes, by ascending index of the vault.
pub open spec fn breaches_upto(vaults: Seq<bool>, e: Explosion, n: int) -> Seq<Explosion> {
    Seq::new(n as nat, |i: int| i).filter(
        |i: int| 0 <= i < vaults.len() && !vaults[i] && blast_reaches_vault(e, i),
    ).map_values(|i: int| Explosion::spec_new(spec_vault_position(i)))
}

/// The explosions that one blast causes on the vaults that are intact when it
/// comes, by ascending index of the vault.
pub open spec fn breaches(vaults: Seq<bool>, e: Explosion) -> Seq<Explosion> {
    breaches_upto(vaults, e, vaults.len() as int)
}

/// The explosions on the vaults that the given explosions destroy: those of
/// the first explosion, then those of the second on the vaults that the first
/// left intact, and so on.
pub open spec fn craters(vaults: Seq<bool>, explosions: Seq<Explosion>) -> Seq<Explosion>
    decreases explosions.len(),
{
    if explosions.len() == 0 {
        Seq::empty()
    } else {
        let earlier = explosions.drop_last();
        craters(vaults, earlier) + breaches(vaults_after(vaults, earlier), explosions.last())
    }
}

/// The projectile overlaps the bomb.
pub open spec fn shot_hits_bomb(p: Projectile, b: Bomb) -> bool {
    spec_circle_overlaps_rectangle(p.spec_circle(), b.spec_shape())
}

/// The projectile overlaps one of the bombs.
pub open spec fn hits_any(p: Projectile, bombs: Seq<Bomb>) -> bool {
    exists|i: int| 0 <= i < bombs.len() && shot_hits_bomb(p, #[trigger] bombs[i])
}

/// The bomb with index `i` is the first that the projectile overlaps.
pub open spec fn is_first_hit(p: Projectile, bombs: Seq<Bomb>, i: int) -> bool {
    &&& 0 <= i < bombs.len()
    &&& shot_hits_bomb(p, bombs[i])
    &&& forall|j: int| 0 <= j < i ==> !shot_hits_bomb(p, #[trigger] bombs[j])
}

/// The index of the first bomb that the projectile overlaps, where there is
/// one.
pub open spec fn first_hit(p: Projectile, bombs: Seq<Bomb>) -> int {
    choose|i: int| is_first_hit(p, bombs, i)
}

/// The outcome of the projectiles meeting the bombs, one projectile after
/// the other: a projectile that overlaps a bomb is used up on the first such
/// bomb, which explodes where it is and is no longer there for the
/// projectiles that follow.
pub open spec fn volley(projectiles: Seq<Projectile>, bombs: Seq<Bomb>) -> Volley
    decreases projectiles.len(),
{
    if projectiles.len() == 0 {
        Volley { shots: Seq::empty(), bombs, blasts: Seq::empty() }
    } else {
        let before = volley(projectiles.drop_last(), bombs);
        let p = projectiles.last();
        if hits_any(p, before.bombs) {
            let i = first_hit(p, before.bombs);
            Volley {
                shots: before.shots,
                bombs: before.bombs.remove(i),
                blasts: before.blasts.push(Explosion::spec_new(before.bombs[i].position)),
            }
        } else {
            Volley { shots: before.shots.push(p), bombs: before.bombs, blasts: before.blasts }
        }
    }
}

/// The projectiles in the air once the cannon has had its turn.
pub open spec fn launched(s: GameState, fire_held: bool) -> Seq<Projectile> {
    if fires(s, fire_held) {
        s.projectiles.push(Projectile::spec_new(s.aim_vector))
    } else {
        s.projectiles
    }
}

/// The bombs in the air once the bomber has had its turn.
pub open spec fn dropped(s: GameState, draw: SpawnDraw) -> Seq<Bomb> {
    if spawn_due(s) {
        s.bombs.push(dropped_bomb(draw))
    } else {
        s.bombs
    }
}

/// The explosions that burn when the bombs have moved and the explosions
/// have aged.
pub open spec fn burning(s: GameState, draw: SpawnDraw) -> Seq<Explosion> {
    aged(s.explosions + landed(dropped(s, draw)))
}

/// The explosions once the chain reaction has set off the bombs in reach.
pub open spec fn chained(s: GameState, draw: SpawnDraw) -> Seq<Explosion> {
    burning(s, draw) + set_off(still_falling(dropped(s, draw)), burning(s, draw))
}

/// One tick of the game. A game that is over stays as it is. Otherwise, in
/// this order: the cannon cools and fires; the projectiles move; a bomb is
/// dropped when its time has come; the bombs move, and those that leave the
/// play region explode; the explosions age; explosions set off the bombs
/// they overlap; explosions destroy the vaults they overlap, each of which
/// explodes in turn; projectiles bring down the bombs they overlap.
pub open spec fn step(s: GameState, fire_held: bool, draw: SpawnDraw) -> GameState {
    if all_destroyed(s.vaults) {
        s
    } else {
        let bombs = spared(still_falling(dropped(s, draw)), burning(s, draw));
        let blasts = chained(s, draw);
        let met = volley(flown(launched(s, fire_held)), bombs);
        GameState {
            cannon_timer: if fires(s, fire_held) {
                CANNON_COOLDOWN as int
            } else {
                cooled(s.cannon_timer)
            },
            bomb_timer: if spawn_due(s) {
                draw.delay as int
            } else {
                s.bomb_timer - 1
            },
            vaults: vaults_after(s.vaults, blasts),
            aim_vector: s.aim_vector,
            bombs: met.bombs,
            projectiles: met.shots,
            explosions: blasts + craters(s.vaults, blasts) + met.blasts,
        }
    }
}

/// The state after a number of ticks, one for each entry of `ticks`, which
/// holds for each tick whether fire was held and what chance drew.
pub open spec fn run(s: GameState, ticks: Seq<(bool, SpawnDraw)>) -> GameState
    decreases ticks.len(),
{
    if ticks.len() == 0 {
        s
    } else {
        let t = ticks.last();
        step(run(s, ticks.drop_last()), t.0, t.1)
    }
}

/// A tick changes neither the number of vaults nor a destroyed vault.
pub proof fn lemma_tick_keeps_destroyed(s: GameState, fire_held: bool, draw: SpawnDraw)
    ensures
        step(s, fire_held, draw).vaults.len() == s.vaults.len(),
        forall|i: int|
            0 <= i < s.vaults.len() && s.vaults[i] ==> #[trigger] step(
                s,
                fire_held,
                draw,
            ).vaults[i],
{
}

/// No number of ticks changes the number of vaults.
pub proof fn lemma_run_keeps_vault_count(s: GameState, ticks: Seq<(bool, SpawnDraw)>)
    ensures
        run(s, ticks).vaults.len() == s.vaults.len(),
    decreases ticks.len(),
{
    if ticks.len() > 0 {
        lemma_run_keeps_vault_count(s, ticks.drop_last());
    }
}

/// Between any two moments of a game, no vault goes from destroyed back to
/// intact.
pub proof fn lemma_vaults_never_recover(
    s: GameState,
    ticks: Seq<(bool, SpawnDraw)>,
    sooner: int,
    later: int,
    index: int,
)
    requires
        0 <= sooner <= later <= ticks.len(),
        0 <= index < s.vaults.len(),
        run(s, ticks.take(sooner)).vaults[index],
    ensures
        run(s, ticks.take(later)).vaults.len() == s.vaults.len(),
        run(s, ticks.take(later)).vaults[index],
    decreases later - sooner,
{
    lemma_run_keeps_vault_count(s, ticks.take(later));
    if sooner < later {
        lemma_vaults_never_recover(s, ticks, sooner, later - 1, index);
        let t = ticks[later - 1];
        assert(ticks.take(later).drop_last() =~= ticks.take(later - 1));
        assert(ticks.take(later).last() == t);
        lemma_tick_keeps_destroyed(run(s, ticks.take(later - 1)), t.0, t.1);
    }
}

/// Once every vault is destroyed the game stands still: no number of ticks
/// changes anything, whatever the input and whatever chance draws.
pub proof fn lemma_game_over_is_final(s: GameState, ticks: Seq<(bool, SpawnDraw)>)
    requires
        all_destroyed(s.vaults),
    ensures
        run(s, ticks) == s,
    decreases ticks.len(),
{
    if ticks.len() > 0 {
        lemma_game_over_is_final(s, ticks.drop_last());
    }
}

/// After a tick the explosions that burned before come first, in their
/// order and each one tick older; those that the tick has brought follow.
pub proof fn lemma_old_explosions_come_first(s: GameState, fire_held: bool, draw: SpawnDraw)
    requires
        !all_destroyed(s.vaults),
    ensures
        aged(s.explosions).is_prefix_of(step(s, fire_held, draw).explosions),
{
    let f = |e: Explosion| e.spec_age();
    let keep = |e: Explosion| e.timer >= 0;
    let old_ones = s.explosions;
    let new_ones = landed(dropped(s, draw));
    assert((old_ones + new_ones).map_values(f) =~= old_ones.map_values(f) + new_ones.map_values(
        f,
    ));
    Seq::filter_distributes_over_add(old_ones.map_values(f), new_ones.map_values(f), keep);
    assert(burning(s, draw) == aged(old_ones) + aged(new_ones));
    let after = step(s, fire_held, draw).explosions;
    assert(aged(old_ones) =~= after.subrange(0, aged(old_ones).len() as int));
}

/// Where no bomb is due, what chance draws makes no difference to the tick.
pub proof fn lemma_draw_unused(s: GameState, fire_held: bool, one: SpawnDraw, other: SpawnDraw)
    requires
        !spawn_due(s) || all_destroyed(s.vaults),
    ensures
        step(s, fire_held, one) == step(s, fire_held, other),
{
}

/// How the projectiles in flight follow one projectile at a time.
pub proof fn lemma_flown_grows(s: Seq<Projectile>, p: Projectile)
    ensures
        flown(Seq::empty()) == Seq::<Projectile>::empty(),
        flown(s.push(p)) == if in_air(p.spec_advance().position) {
            flown(s).push(p.spec_advance())
        } else {
            flown(s)
        },
{
    let f = |p: Projectile| p.spec_advance();
    let keep = |p: Projectile| in_air(p.position);
    lemma_empty::<Projectile, Projectile, Projectile>(f, keep, f);
    lemma_map_filter_push(s, p, f, keep);
}

/// How the bombs that go on falling, and the explosions of those that do
/// not, follow one bomb at a time.
pub proof fn lemma_fall_grows(s: Seq<Bomb>, b: Bomb)
    ensures
        still_falling(Seq::empty()) == Seq::<Bomb>::empty(),
        landed(Seq::empty()) == Seq::<Explosion>::empty(),
        still_falling(s.push(b)) == if in_air(b.spec_advance().position) {
            still_falling(s).push(b.spec_advance())
        } else {
            still_falling(s)
        },
        landed(s.push(b)) == if in_air(b.spec_advance().position) {
            landed(s)
        } else {
            landed(s).push(Explosion::spec_new(b.spec_advance().position))
        },
{
    let f = |b: Bomb| b.spec_advance();
    let keep = |b: Bomb| in_air(b.position);
    let lose = |b: Bomb| !in_air(b.position);
    let burst = |b: Bomb| Explosion::spec_new(b.position);
    lemma_empty::<Bomb, Bomb, Explosion>(f, keep, burst);
    lemma_empty::<Bomb, Bomb, Explosion>(f, lose, burst);
    lemma_map_filter_push(s, b, f, keep);
    lemma_map_filter_map_push(s, b, f, lose, burst);
}

/// How the explosions that go on burning follow one explosion at a time.
pub proof fn lemma_aged_grows(s: Seq<Explosion>, e: Explosion)
    ensures
        aged(Seq::empty()) == Seq::<Explosion>::empty(),
        aged(s.push(e)) == if e.spec_age().timer >= 0 {
            aged(s).push(e.spec_age())
        } else {
            aged(s)
        },
{
    let f = |e: Explosion| e.spec_age();
    let keep = |e: Explosion| e.timer >= 0;
    lemma_empty::<Explosion, Explosion, Explosion>(f, keep, f);
    lemma_map_filter_push(s, e, f, keep);
}

/// How the outcome of the chain reaction follows one bomb at a time.
pub proof fn lemma_chain_grows(s: Seq<Bomb>, b: Bomb, explosions: Seq<Explosion>)
    ensures
        spared(Seq::empty(), explosions) == Seq::<Bomb>::empty(),
        set_off(Seq::empty(), explosions) == Seq::<Explosion>::empty(),
        spared(s.push(b), explosions) == if caught(b, explosions) {
            spared(s, explosions)
        } else {
            spared(s, explosions).push(b)
        },
        set_off(s.push(b), explosions) == if caught(b, explosions) {
            set_off(s, explosions).push(Explosion::spec_new(b.position))
        } else {
            set_off(s, explosions)
        },
{
    let free = |b: Bomb| !caught(b, explosions);
    let taken = |b: Bomb| caught(b, explosions);
    let burst = |b: Bomb| Explosion::spec_new(b.position);
    let same = |b: Bomb| b;
    lemma_empty::<Bomb, Bomb, Explosion>(same, free, burst);
    lemma_empty::<Bomb, Bomb, Explosion>(same, taken, burst);
    lemma_filter_push(s, b, free);
    lemma_filter_map_push(s, b, taken, burst);
}

/// How the explosions that one blast causes on the vaults follow one vault
/// at a time.
pub proof fn lemma_breaches_grow(vaults: Seq<bool>, e: Explosion, n: int)
    requires
        0 <= n,
    ensures
        breaches_upto(vaults, e, 0) == Seq::<Explosion>::empty(),
        breaches_upto(vaults, e, n + 1) == if n < vaults.len() && !vaults[n]
            && blast_reaches_vault(e, n) {
            breaches_upto(vaults, e, n).push(Explosion::spec_new(spec_vault_position(n)))
        } else {
            breaches_upto(vaults, e, n)
        },
{
    let same = |i: int| i;
    let intact = |i: int| 0 <= i < vaults.len() && !vaults[i] && blast_reaches_vault(e, i);
    let burst = |i: int| Explosion::spec_new(spec_vault_position(i));
    lemma_empty::<int, int, Explosion>(same, intact, burst);
    assert(Seq::new(0, same) =~= Seq::<int>::empty());
    assert(Seq::new((n + 1) as nat, same) =~= Seq::new(n as nat, same).push(n));
    lemma_filter_map_push(Seq::new(n as nat, same), n, intact, burst);
}

/// How the vaults and the explosions on them follow one explosion at a time.
pub proof fn lemma_craters_grow(vaults: Seq<bool>, explosions: Seq<Explosion>, n: int)
    requires
        0 <= n < explosions.len(),
    ensures
        craters(vaults, explosions.take(0)) == Seq::<Explosion>::empty(),
        vaults_after(vaults, explosions.take(0)) == vaults,
        craters(vaults, explosions.take(n + 1)) == craters(vaults, explosions.take(n)) + breaches(
            vaults_after(vaults, explosions.take(n)),
            explosions[n],
        ),
        forall|i: int|
            0 <= i < vaults.len() ==> #[trigger] vaults_after(
                vaults,
                explosions.take(n + 1),
            )[i] == (
            vaults_after(vaults, explosions.take(n))[i] || blast_reaches_vault(explosions[n], i)),
        vaults_after(vaults, explosions.take(n + 1)).len() == vaults.len(),
{
    lemma_take_next(explosions, n);
    assert(vaults_after(vaults, explosions.take(0)) =~= vaults);
    let sooner = explosions.take(n);
    let later = explosions.take(n + 1);
    assert forall|i: int| 0 <= i < vaults.len() implies #[trigger] vaults_after(vaults, later)[i]
        == (vaults_after(vaults, sooner)[i] || blast_reaches_vault(explosions[n], i)) by {
        if vault_hit(later, i) {
            let j = choose|j: int|
                0 <= j < later.len() && blast_reaches_vault(#[trigger] later[j], i);
            if j < n {
                assert(blast_reaches_vault(sooner[j], i));
            }
        }
        if vault_hit(sooner, i) {
            let j = choose|j: int|
                0 <= j < sooner.len() && blast_reaches_vault(#[trigger] sooner[j], i);
            assert(blast_reaches_vault(later[j], i));
        }
        if blast_reaches_vault(explosions[n], i) {
            assert(blast_reaches_vault(later[n], i));
        }
    }
}

/// The first bomb that a projectile overlaps is the only one that is the
/// first.
pub proof fn lemma_first_hit_is(p: Projectile, bombs: Seq<Bomb>, i: int)
    requires
        is_first_hit(p, bombs, i),
    ensures
        hits_any(p, bombs),
        first_hit(p, bombs) == i,
{
    let j = first_hit(p, bombs);
    assert(is_first_hit(p, bombs, j));
    if j < i {
        assert(!shot_hits_bomb(p, bombs[j]));
    } else if i < j {
        assert(!shot_hits_bomb(p, bombs[i]));
    }
}

/// How the outcome of a round of shots follows one projectile at a time.
pub proof fn lemma_volley_grows(projectiles: Seq<Projectile>, bombs: Seq<Bomb>, n: int)
    requires
        0 <= n < projectiles.len(),
    ensures
        volley(projectiles.take(0), bombs) == (Volley {
            shots: Seq::empty(),
            bombs,
            blasts: Seq::empty(),
        }),
        ({
            let before = volley(projectiles.take(n), bombs);
            let p = projectiles[n];
            volley(projectiles.take(n + 1), bombs) == if hits_any(p, before.bombs) {
                Volley {
                    shots: before.shots,
                    bombs: before.bombs.remove(first_hit(p, before.bombs)),
                    blasts: before.blasts.push(
                        Explosion::spec_new(before.bombs[first_hit(p, before.bombs)].position),
                    ),
                }
            } else {
                Volley { shots: before.shots.push(p), bombs: before.bombs, blasts: before.blasts }
            }
        }),
{
    lemma_take_next(projectiles, n);
}

/// Projectiles that are ready are in flight one tick later, as far as they
/// are still there.
pub proof fn lemma_flown_in_flight(projectiles: Seq<Projectile>)
    requires
        all_ready(projectiles),
    ensures
        all_in_flight(flown(projectiles)),
    decreases projectiles.len(),
{
    if projectiles.len() == 0 {
        assert(projectiles =~= Seq::empty());
        lemma_flown_grows(projectiles, arbitrary());
    } else {
        let front = projectiles.drop_last();
        let p = projectiles.last();
        assert(projectiles =~= front.push(p));
        assert forall|i: int| 0 <= i < front.len() implies (#[trigger] front[i]).ready() by {
            assert(projectiles[i].ready());
        }
        lemma_flown_in_flight(front);
        lemma_flown_grows(front, p);
        assert(p.ready());
        if in_air(p.spec_advance().position) {
            lemma_projectile_stays_in_flight(p);
        }
    }
}

/// Of falling bombs, those that stay in the play region go on falling, and
/// the others leave burning explosions.
pub proof fn lemma_fall_keeps_valid(bombs: Seq<Bomb>)
    ensures
        all_falling(still_falling(bombs)),
        all_burning(landed(bombs)),
    decreases bombs.len(),
{
    if bombs.len() == 0 {
        assert(bombs =~= Seq::empty());
        lemma_fall_grows(bombs, arbitrary());
    } else {
        let front = bombs.drop_last();
        let b = bombs.last();
        assert(bombs =~= front.push(b));
        lemma_fall_keeps_valid(front);
        lemma_fall_grows(front, b);
        lemma_bomb_speed_is_capped(b);
    }
}

/// Burning explosions burn on, as far as they are still there.
pub proof fn lemma_aged_burning(explosions: Seq<Explosion>)
    requires
        all_burning(explosions),
    ensures
        all_burning(aged(explosions)),
    decreases explosions.len(),
{
    if explosions.len() == 0 {
        assert(explosions =~= Seq::empty());
        lemma_aged_grows(explosions, arbitrary());
    } else {
        let front = explosions.drop_last();
        let e = explosions.last();
        assert(explosions =~= front.push(e));
        assert forall|i: int| 0 <= i < front.len() implies (#[trigger] front[i]).burning() by {
            assert(explosions[i].burning());
        }
        lemma_aged_burning(front);
        lemma_aged_grows(front, e);
        assert(e.burning());
    }
}

/// A chain reaction leaves falling bombs and burning explosions.
pub proof fn lemma_chain_keeps_valid(bombs: Seq<Bomb>, explosions: Seq<Explosion>)
    requires
        all_falling(bombs),
    ensures
        all_falling(spared(bombs, explosions)),
        all_burning(set_off(bombs, explosions)),
    decreases bombs.len(),
{
    if bombs.len() == 0 {
        assert(bombs =~= Seq::empty());
        lemma_chain_grows(bombs, arbitrary(), explosions);
    } else {
        let front = bombs.drop_last();
        let b = bombs.last();
        assert(bombs =~= front.push(b));
        assert forall|i: int| 0 <= i < front.len() implies (#[trigger] front[i]).falling() by {
            assert(bombs[i].falling());
        }
        lemma_chain_keeps_valid(front, explosions);
        lemma_chain_grows(front, b, explosions);
        assert(b.falling());
    }
}

/// The explosions that one blast causes on the vaults are burning.
pub proof fn lemma_breaches_burning(vaults: Seq<bool>, e: Explosion, n: int)
    requires
        0 <= n,
    ensures
        all_burning(breaches_upto(vaults, e, n)),
    decreases n,
{
    if n == 0 {
        lemma_breaches_grow(vaults, e, 0);
    } else {
        lemma_breaches_burning(vaults, e, n - 1);
        lemma_breaches_grow(vaults, e, n - 1);
    }
}

/// The explosions on the vaults that were destroyed are burning.
pub proof fn lemma_craters_burning(vaults: Seq<bool>, explosions: Seq<Explosion>)
    ensures
        all_burning(craters(vaults, explosions)),
    decreases explosions.len(),
{
    if explosions.len() > 0 {
        let earlier = explosions.drop_last();
        lemma_craters_burning(vaults, earlier);
        let standing = vaults_after(vaults, earlier);
        lemma_breaches_burning(standing, explosions.last(), standing.len() as int);
    }
}

/// A round of shots leaves projectiles in flight, falling bombs and burning
/// explosions.
pub proof fn lemma_volley_keeps_valid(projectiles: Seq<Projectile>, bombs: Seq<Bomb>)
    requires
        all_in_flight(projectiles),
        all_falling(bombs),
    ensures
        all_in_flight(volley(projectiles, bombs).shots),
        all_falling(volley(projectiles, bombs).bombs),
        all_burning(volley(projectiles, bombs).blasts),
    decreases projectiles.len(),
{
    if projectiles.len() > 0 {
        let front = projectiles.drop_last();
        let p = projectiles.last();
        assert forall|i: int| 0 <= i < front.len() implies (#[trigger] front[i]).in_flight() by {
            assert(projectiles[i].in_flight());
        }
        lemma_volley_keeps_valid(front, bombs);
        let before = volley(front, bombs);
        assert(p.in_flight());
        if hits_any(p, before.bombs) {
            let i = choose|i: int|
                0 <= i < before.bombs.len() && shot_hits_bomb(p, #[trigger] before.bombs[i]);
            lemma_some_hit_is_first(p, before.bombs, i);
            let k = first_hit(p, before.bombs);
            let left = before.bombs.remove(k);
            assert forall|j: int| 0 <= j < left.len() implies (#[trigger] left[j]).falling() by {
                if j < k {
                    assert(left[j] == before.bombs[j]);
                } else {
                    assert(left[j] == before.bombs[j + 1]);
                }
            }
        }
    }
}

/// Where a projectile overlaps some bomb, there is a first bomb that it
/// overlaps.
pub proof fn lemma_some_hit_is_first(p: Projectile, bombs: Seq<Bomb>, i: int)
    requires
        0 <= i < bombs.len(),
        shot_hits_bomb(p, bombs[i]),
    ensures
        is_first_hit(p, bombs, first_hit(p, bombs)),
    decreases i,
{
    if forall|j: int| 0 <= j < i ==> !shot_hits_bomb(p, #[trigger] bombs[j]) {
        assert(is_first_hit(p, bombs, i));
    } else {
        let j = choose|j: int| 0 <= j < i && shot_hits_bomb(p, #[trigger] bombs[j]);
        lemma_some_hit_is_first(p, bombs, j);
    }
}

/// A tick leads from a state that the game can be in to another such state:
/// no timer runs below zero, no bomb is faster than a bomb may be, no
/// explosion has less than no time left.
pub proof fn lemma_step_keeps_valid(s: GameState, fire_held: bool, draw: SpawnDraw)
    requires
        valid_state(s),
        draw.valid(),
    ensures
        valid_state(step(s, fire_held, draw)),
{
    if !all_destroyed(s.vaults) {
        let shots = launched(s, fire_held);
        assert forall|i: int| 0 <= i < shots.len() implies (#[trigger] shots[i]).ready() by {
            if i < s.projectiles.len() {
                assert(s.projectiles[i].in_flight());
            } else {
                lemma_unit_vector_length(s.aim_vector.x as int, s.aim_vector.y as int);
            }
        }
        lemma_flown_in_flight(shots);
        let bombs = dropped(s, draw);
        assert forall|i: int| 0 <= i < bombs.len() implies (#[trigger] bombs[i]).falling() by {
            if i < s.bombs.len() {
                assert(s.bombs[i].falling());
            } else {
                lemma_resting_bomb_falls(dropped_bomb(draw));
            }
        }
        lemma_fall_keeps_valid(bombs);
        let lit = s.explosions + landed(bombs);
        assert forall|i: int| 0 <= i < lit.len() implies (#[trigger] lit[i]).burning() by {
            if i < s.explosions.len() {
                assert(s.explosions[i].burning());
            } else {
                assert(landed(bombs)[i - s.explosions.len()].burning());
            }
        }
        lemma_aged_burning(lit);
        let burn = burning(s, draw);
        lemma_chain_keeps_valid(still_falling(bombs), burn);
        let blasts = chained(s, draw);
        lemma_craters_burning(s.vaults, blasts);
        lemma_volley_keeps_valid(flown(shots), spared(still_falling(bombs), burn));
        let met = volley(flown(shots), spared(still_falling(bombs), burn));
        let end = step(s, fire_held, draw).explosions;
        let fresh = set_off(still_falling(bombs), burn);
        let holes = craters(s.vaults, blasts);
        assert forall|i: int| 0 <= i < end.len() implies (#[trigger] end[i]).burning() by {
            if i < burn.len() {
                assert(burn[i].burning());
            } else if i < blasts.len() {
                assert(fresh[i - burn.len()].burning());
            } else if i < blasts.len() + holes.len() {
                assert(holes[i - blasts.len()].burning());
            } else {
                assert(met.blasts[i - blasts.len() - holes.len()].burning());
            }
        }
    }
}

/// Every state of a game that starts in a state that the game can be in is
/// such a state, as long as chance draws what it may.
pub proof fn lemma_run_keeps_valid(s: GameState, ticks: Seq<(bool, SpawnDraw)>)
    requires
        valid_state(s),
        forall|i: int| 0 <= i < ticks.len() ==> (#[trigger] ticks[i]).1.valid(),
    ensures
        valid_state(run(s, ticks)),
    decreases ticks.len(),
{
    if ticks.len() > 0 {
        let front = ticks.drop_last();
        assert forall|i: int| 0 <= i < front.len() implies (#[trigger] front[i]).1.valid() by {
            assert(ticks[i].1.valid());
        }
        lemma_run_keeps_valid(s, front);
        let t = ticks.last();
        assert(ticks[ticks.len() - 1].1.valid());
        lemma_step_keeps_valid(run(s, front), t.0, t.1);
    }
}

} // verus!
