use vstd::prelude::*;
use crate::config::{
    BITE_DAMAGE, BULLET_DAMAGE, PEASHOOTER_BULLET_SPEED, PEASHOOTER_SHOOT_INTERVAL,
    SUN_FALL_SPEED, SUN_FALL_TICKS, SUN_PRODUCE_INTERVAL, WINDOW_WIDTH,
};
use crate::entities::{
    bullet_loose, bullet_wf, crossed, damage, fall_sun, hits, hits_exec, move_bullet, near,
    near_exec, new_bullet, new_sun, plant_wf, shot_due, sun_due, sun_wf, tick_peashooter,
    tick_sunflower, walk_zombie, zombie_loose, zombie_wf, Bullet, Plant, PlantType, Sun, Zombie,
};
use crate::grid::{cell_to_screen, Point};

verus! {

pub open spec fn is_sun_due() -> spec_fn(Plant) -> bool {
    |p: Plant| sun_due(p)
}

pub open spec fn is_shot_due() -> spec_fn(Plant) -> bool {
    |p: Plant| shot_due(p)
}

/// The plants after one tick of their sun timers.
pub open spec fn tick_sunflowers(ps: Seq<Plant>) -> Seq<Plant> {
    ps.map_values(|p: Plant| tick_sunflower(p))
}

/// The plants after one tick of their shooting timers.
pub open spec fn tick_peashooters(ps: Seq<Plant>) -> Seq<Plant> {
    ps.map_values(|p: Plant| tick_peashooter(p))
}

/// The suns dropped in one tick: one per due sunflower, in the plants' order.
pub open spec fn dropped_suns(ps: Seq<Plant>) -> Seq<Sun> {
    ps.filter(is_sun_due()).map_values(|p: Plant| new_sun(p))
}

/// The peas shot in one tick: one per due peashooter, in the plants' order.
pub open spec fn fired_bullets(ps: Seq<Plant>) -> Seq<Bullet> {
    ps.filter(is_shot_due()).map_values(|p: Plant| new_bullet(p))
}

pub open spec fn fallen_suns(ss: Seq<Sun>) -> Seq<Sun> {
    ss.map_values(|s: Sun| fall_sun(s))
}

pub open spec fn moved_bullets(bs: Seq<Bullet>) -> Seq<Bullet> {
    bs.map_values(|b: Bullet| move_bullet(b))
}

pub open spec fn walked_zombies(zs: Seq<Zombie>) -> Seq<Zombie> {
    zs.map_values(|z: Zombie| walk_zombie(z))
}

pub open spec fn all_plants_wf(ps: Seq<Plant>) -> bool {
    forall|k: int| 0 <= k < ps.len() ==> plant_wf(#[trigger] ps[k])
}

pub open spec fn all_suns_wf(ss: Seq<Sun>) -> bool {
    forall|k: int| 0 <= k < ss.len() ==> sun_wf(#[trigger] ss[k])
}

pub open spec fn all_zombies_wf(zs: Seq<Zombie>) -> bool {
    forall|k: int| 0 <= k < zs.len() ==> zombie_wf(#[trigger] zs[k])
}

pub open spec fn all_zombies_loose(zs: Seq<Zombie>) -> bool {
    forall|k: int| 0 <= k < zs.len() ==> zombie_loose(#[trigger] zs[k])
}

pub open spec fn all_bullets_wf(bs: Seq<Bullet>) -> bool {
    forall|k: int| 0 <= k < bs.len() ==> bullet_wf(#[trigger] bs[k])
}

/// No two plants stand in one cell.
pub open spec fn cells_unique(ps: Seq<Plant>) -> bool {
    forall|i: int, j: int| 0 <= i < j < ps.len() ==> #[trigger] ps[i].cell != #[trigger] ps[j].cell
}

/// Filtering a prefix one element longer adds that element if it passes.
pub proof fn lemma_filter_take<A>(s: Seq<A>, pred: spec_fn(A) -> bool, i: int)
    requires
        0 <= i < s.len(),
    ensures
        s.take(i + 1).filter(pred) == (if pred(s[i]) {
            s.take(i).filter(pred).push(s[i])
        } else {
            s.take(i).filter(pred)
        }),
{
    reveal(Seq::filter);
    assert(s.take(i + 1).drop_last() =~= s.take(i));
}

fn plant_sun_tick(p: Plant) -> (r: Plant)
    requires
        plant_wf(p),
    ensures
        r == tick_sunflower(p),
        plant_wf(r),
{
    if p.plant_type != PlantType::Sunflower {
        p
    } else if p.last_sun_time + 1 >= SUN_PRODUCE_INTERVAL {
        Plant { last_sun_time: 0, ..p }
    } else {
        Plant { last_sun_time: p.last_sun_time + 1, ..p }
    }
}

fn plant_shot_tick(p: Plant) -> (r: Plant)
    requires
        plant_wf(p),
    ensures
        r == tick_peashooter(p),
        plant_wf(r),
{
    if p.plant_type != PlantType::Peashooter {
        p
    } else if p.last_shoot_time + 1 >= PEASHOOTER_SHOOT_INTERVAL {
        Plant { last_shoot_time: 0, ..p }
    } else {
        Plant { last_shoot_time: p.last_shoot_time + 1, ..p }
    }
}

/// Runs the sunflowers' timers; every sunflower whose interval is up drops a sun.
pub fn produce(plants: &Vec<Plant>, suns: &mut Vec<Sun>) -> (r: Vec<Plant>)
    requires
        all_plants_wf(plants@),
        all_suns_wf(old(suns)@),
    ensures
        r@ == tick_sunflowers(plants@),
        cells_unique(plants@) ==> cells_unique(r@),
        final(suns)@ == old(suns)@ + dropped_suns(plants@),
        all_plants_wf(r@),
        all_suns_wf(final(suns)@),
{
    let mut out: Vec<Plant> = Vec::new();
    let mut i: usize = 0;
    while i < plants.len()
        invariant
            i <= plants@.len(),
            all_plants_wf(plants@),
            all_plants_wf(out@),
            out@ == tick_sunflowers(plants@.take(i as int)),
            suns@ == old(suns)@ + dropped_suns(plants@.take(i as int)),
            all_suns_wf(suns@),
        decreases plants@.len() - i,
    {
        let p = plants[i];
        proof {
            lemma_filter_take(plants@, is_sun_due(), i as int);
            assert(plants@.take(i + 1).drop_last() =~= plants@.take(i as int));
        }
        if p.plant_type == PlantType::Sunflower && p.last_sun_time + 1 >= SUN_PRODUCE_INTERVAL {
            suns.push(Sun { position: cell_to_screen(p.cell), is_collected: false, fall_timer: 0 });
        }
        out.push(plant_sun_tick(p));
        i = i + 1;
        assert(out@ =~= tick_sunflowers(plants@.take(i as int)));
        assert(suns@ =~= old(suns)@ + dropped_suns(plants@.take(i as int)));
    }
    assert(plants@.take(plants@.len() as int) =~= plants@);
    proof {
        if cells_unique(plants@) {
            assert forall|a: int, b: int| 0 <= a < b < out@.len() implies
                #[trigger] out@[a].cell != #[trigger] out@[b].cell by {
                assert(out@[a].cell == plants@[a].cell);
                assert(out@[b].cell == plants@[b].cell);
            }
        }
    }
    out
}

/// Lets every uncollected sun fall one step, until it has fallen for long enough.
pub fn fall(suns: &Vec<Sun>) -> (r: Vec<Sun>)
    requires
        all_suns_wf(suns@),
    ensures
        r@ == fallen_suns(suns@),
        all_suns_wf(r@),
{
    let mut out: Vec<Sun> = Vec::new();
    let mut i: usize = 0;
    while i < suns.len()
        invariant
            i <= suns@.len(),
            all_suns_wf(suns@),
            all_suns_wf(out@),
            out@ == fallen_suns(suns@.take(i as int)),
        decreases suns@.len() - i,
    {
        let s = suns[i];
        assert(sun_wf(suns@[i as int]));
        if !s.is_collected && s.fall_timer < SUN_FALL_TICKS {
            out.push(
                Sun {
                    position: Point { x: s.position.x, y: s.position.y + SUN_FALL_SPEED },
                    fall_timer: s.fall_timer + 1,
                    ..s
                },
            );
        } else {
            out.push(s);
        }
        i = i + 1;
        assert(out@ =~= fallen_suns(suns@.take(i as int)));
    }
    assert(suns@.take(suns@.len() as int) =~= suns@);
    out
}

/// Runs the peashooters' timers; every peashooter whose interval is up shoots a pea.
pub fn shoot(plants: &Vec<Plant>, bullets: &mut Vec<Bullet>) -> (r: Vec<Plant>)
    requires
        all_plants_wf(plants@),
        all_bullets_wf(old(bullets)@),
    ensures
        r@ == tick_peashooters(plants@),
        cells_unique(plants@) ==> cells_unique(r@),
        final(bullets)@ == old(bullets)@ + fired_bullets(plants@),
        all_plants_wf(r@),
        all_bullets_wf(final(bullets)@),
{
    let mut out: Vec<Plant> = Vec::new();
    let mut i: usize = 0;
    while i < plants.len()
        invariant
            i <= plants@.len(),
            all_plants_wf(plants@),
            all_plants_wf(out@),
            out@ == tick_peashooters(plants@.take(i as int)),
            bullets@ == old(bullets)@ + fired_bullets(plants@.take(i as int)),
            all_bullets_wf(bullets@),
        decreases plants@.len() - i,
    {
        let p = plants[i];
        proof {
            lemma_filter_take(plants@, is_shot_due(), i as int);
        }
        if p.plant_type == PlantType::Peashooter && p.last_shoot_time + 1
            >= PEASHOOTER_SHOOT_INTERVAL {
            bullets.push(Bullet { position: cell_to_screen(p.cell), row: p.cell.0 });
        }
        out.push(plant_shot_tick(p));
        i = i + 1;
        assert(out@ =~= tick_peashooters(plants@.take(i as int)));
        assert(bullets@ =~= old(bullets)@ + fired_bullets(plants@.take(i as int)));
    }
    assert(plants@.take(plants@.len() as int) =~= plants@);
    proof {
        if cells_unique(plants@) {
            assert forall|a: int, b: int| 0 <= a < b < out@.len() implies
                #[trigger] out@[a].cell != #[trigger] out@[b].cell by {
                assert(out@[a].cell == plants@[a].cell);
                assert(out@[b].cell == plants@[b].cell);
            }
        }
    }
    out
}

/// Moves every pea one step to the right.
pub fn move_bullets(bullets: &Vec<Bullet>) -> (r: Vec<Bullet>)
    requires
        all_bullets_wf(bullets@),
    ensures
        r@ == moved_bullets(bullets@),
        forall|k: int| 0 <= k < r@.len() ==> bullet_loose(#[trigger] r@[k]),
{
    let mut out: Vec<Bullet> = Vec::new();
    let mut i: usize = 0;
    while i < bullets.len()
        invariant
            i <= bullets@.len(),
            all_bullets_wf(bullets@),
            forall|k: int| 0 <= k < out@.len() ==> bullet_loose(#[trigger] out@[k]),
            out@ == moved_bullets(bullets@.take(i as int)),
        decreases bullets@.len() - i,
    {
        let b = bullets[i];
        assert(bullet_wf(bullets@[i as int]));
        out.push(
            Bullet {
                position: Point { x: b.position.x + PEASHOOTER_BULLET_SPEED, y: b.position.y },
                ..b
            },
        );
        i = i + 1;
        assert(out@ =~= moved_bullets(bullets@.take(i as int)));
    }
    assert(bullets@.take(bullets@.len() as int) =~= bullets@);
    out
}

/// Whether zombie `j` is the first zombie, in the zombies' order, that pea `b` hits.
pub open spec fn first_target(b: Bullet, zs: Seq<Zombie>, j: int) -> bool {
    &&& 0 <= j < zs.len()
    &&& hits(b, zs[j])
    &&& forall|k: int| 0 <= k < j ==> !hits(b, #[trigger] zs[k])
}

pub open spec fn has_target(b: Bullet, zs: Seq<Zombie>) -> bool {
    exists|j: int| 0 <= j < zs.len() && hits(b, #[trigger] zs[j])
}

pub open spec fn targets(zs: Seq<Zombie>, j: int) -> spec_fn(Bullet) -> bool {
    |b: Bullet| first_target(b, zs, j)
}

/// A pea stays when it hit nothing and is still over the playfield.
pub open spec fn pea_stays(zs: Seq<Zombie>) -> spec_fn(Bullet) -> bool {
    |b: Bullet| !has_target(b, zs) && b.position.x <= WINDOW_WIDTH
}

pub open spec fn is_alive() -> spec_fn(Zombie) -> bool {
    |z: Zombie| z.health > 0
}

/// Number of peas whose first target is zombie `j`: each hits only that one.
pub open spec fn hits_taken(bs: Seq<Bullet>, zs: Seq<Zombie>, j: int) -> nat {
    bs.filter(targets(zs, j)).len()
}

/// The zombies after the peas struck: each loses the damage of every pea
/// that struck it, and those left with no health are gone.
pub open spec fn struck_zombies(bs: Seq<Bullet>, zs: Seq<Zombie>) -> Seq<Zombie> {
    Seq::new(
        zs.len(),
        |j: int|
            Zombie {
                health: damage(zs[j].health as int, BULLET_DAMAGE * hits_taken(bs, zs, j)) as u32,
                ..zs[j]
            },
    ).filter(is_alive())
}

pub open spec fn surviving_bullets(bs: Seq<Bullet>, zs: Seq<Zombie>) -> Seq<Bullet> {
    bs.filter(pea_stays(zs))
}

/// Finds the first zombie that a pea hits.
pub fn first_target_index(b: &Bullet, zs: &Vec<Zombie>) -> (r: Option<usize>)
    requires
        bullet_loose(*b),
        all_zombies_wf(zs@),
    ensures
        match r {
            Some(j) => first_target(*b, zs@, j as int),
            None => !has_target(*b, zs@),
        },
{
    let mut j: usize = 0;
    while j < zs.len()
        invariant
            j <= zs@.len(),
            bullet_loose(*b),
            all_zombies_wf(zs@),
            forall|k: int| 0 <= k < j ==> !hits(*b, #[trigger] zs@[k]),
        decreases zs@.len() - j,
    {
        if hits_exec(b, &zs[j]) {
            return Some(j);
        }
        j = j + 1;
    }
    None
}

/// Resolves the hits of the peas on the zombies. Every pea strikes at most the
/// first zombie it hits; it is then gone, as is every pea off the playfield.
pub fn resolve_hits(bullets: &Vec<Bullet>, zombies: &Vec<Zombie>) -> (r: (Vec<Bullet>, Vec<Zombie>))
    requires
        forall|k: int| 0 <= k < bullets@.len() ==> bullet_loose(#[trigger] bullets@[k]),
        all_zombies_wf(zombies@),
    ensures
        r.0@ == surviving_bullets(bullets@, zombies@),
        r.1@ == struck_zombies(bullets@, zombies@),
        all_bullets_wf(r.0@),
        all_zombies_wf(r.1@),
{
    let mut health: Vec<u32> = Vec::new();
    let mut j: usize = 0;
    while j < zombies.len()
        invariant
            j <= zombies@.len(),
            health@.len() == j,
            forall|k: int| 0 <= k < j ==> health@[k] == zombies@[k].health,
        decreases zombies@.len() - j,
    {
        health.push(zombies[j].health);
        j = j + 1;
    }
    let mut kept: Vec<Bullet> = Vec::new();
    let mut i: usize = 0;
    while i < bullets.len()
        invariant
            i <= bullets@.len(),
            forall|k: int| 0 <= k < bullets@.len() ==> bullet_loose(#[trigger] bullets@[k]),
            all_zombies_wf(zombies@),
            health@.len() == zombies@.len(),
            forall|k: int|
                0 <= k < zombies@.len() ==> health@[k] == damage(
                    zombies@[k].health as int,
                    BULLET_DAMAGE * hits_taken(bullets@.take(i as int), zombies@, k),
                ),
            kept@ == surviving_bullets(bullets@.take(i as int), zombies@),
            all_bullets_wf(kept@),
        decreases bullets@.len() - i,
    {
        let b = bullets[i];
        proof {
            lemma_filter_take(bullets@, pea_stays(zombies@), i as int);
            assert forall|k: int| 0 <= k < zombies@.len() implies
                #[trigger] bullets@.take(i + 1).filter(targets(zombies@, k))
                    == (if first_target(b, zombies@, k) {
                        bullets@.take(i as int).filter(targets(zombies@, k)).push(b)
                    } else {
                        bullets@.take(i as int).filter(targets(zombies@, k))
                    }) by {
                lemma_filter_take(bullets@, targets(zombies@, k), i as int);
            }
        }
        let target = first_target_index(&b, zombies);
        match target {
            Some(j) => {
                let h = health[j];
                health.set(j, h.saturating_sub(BULLET_DAMAGE));
                proof {
                    assert forall|k: int| 0 <= k < zombies@.len() && k != j implies
                        !first_target(b, zombies@, k) by {
                        if k < j {
                        } else {
                            assert(!hits(b, zombies@[j as int]) || !first_target(b, zombies@, k));
                        }
                    }
                    assert(has_target(b, zombies@));
                }
            },
            None => {
                if b.position.x <= WINDOW_WIDTH {
                    kept.push(b);
                }
            },
        }
        i = i + 1;
    }
    assert(bullets@.take(bullets@.len() as int) =~= bullets@);
    let mut out: Vec<Zombie> = Vec::new();
    let ghost struck = Seq::new(
        zombies@.len(),
        |j: int|
            Zombie {
                health: damage(
                    zombies@[j].health as int,
                    BULLET_DAMAGE * hits_taken(bullets@, zombies@, j),
                ) as u32,
                ..zombies@[j]
            },
    );
    let mut j: usize = 0;
    while j < zombies.len()
        invariant
            j <= zombies@.len(),
            all_zombies_wf(zombies@),
            all_zombies_wf(out@),
            health@.len() == zombies@.len(),
            forall|k: int|
                0 <= k < zombies@.len() ==> health@[k] == damage(
                    zombies@[k].health as int,
                    BULLET_DAMAGE * hits_taken(bullets@, zombies@, k),
                ),
            struck.len() == zombies@.len(),
            struck == Seq::new(
                zombies@.len(),
                |j: int|
                    Zombie {
                        health: damage(
                            zombies@[j].health as int,
                            BULLET_DAMAGE * hits_taken(bullets@, zombies@, j),
                        ) as u32,
                        ..zombies@[j]
                    },
            ),
            out@ == struck.take(j as int).filter(is_alive()),
        decreases zombies@.len() - j,
    {
        let z = zombies[j];
        proof {
            lemma_filter_take(struck, is_alive(), j as int);
        }
        if health[j] > 0 {
            out.push(Zombie { health: health[j], ..z });
        }
        j = j + 1;
    }
    assert(struck.take(struck.len() as int) =~= struck);
    (kept, out)
}

/// Every zombie that is not blocked walks one step to the left.
pub fn walk(zombies: &Vec<Zombie>) -> (r: Vec<Zombie>)
    requires
        all_zombies_wf(zombies@),
    ensures
        r@ == walked_zombies(zombies@),
        all_zombies_loose(r@),
{
    let mut out: Vec<Zombie> = Vec::new();
    let mut i: usize = 0;
    while i < zombies.len()
        invariant
            i <= zombies@.len(),
            all_zombies_wf(zombies@),
            all_zombies_loose(out@),
            out@ == walked_zombies(zombies@.take(i as int)),
        decreases zombies@.len() - i,
    {
        let z = zombies[i];
        assert(zombie_wf(zombies@[i as int]));
        if z.is_blocked {
            out.push(z);
        } else {
            out.push(
                Zombie { position: Point { x: z.position.x - z.speed, y: z.position.y }, ..z },
            );
        }
        i = i + 1;
        assert(out@ =~= walked_zombies(zombies@.take(i as int)));
    }
    assert(zombies@.take(zombies@.len() as int) =~= zombies@);
    out
}

pub open spec fn touches(p: Plant) -> spec_fn(Zombie) -> bool {
    |z: Zombie| near(p, z)
}

pub open spec fn is_standing() -> spec_fn(Plant) -> bool {
    |p: Plant| p.health > 0
}

/// A plant after one tick of bites: one bite from each zombie that touches it.
pub open spec fn bitten(p: Plant, zs: Seq<Zombie>) -> Plant {
    Plant {
        health: damage(p.health as int, BITE_DAMAGE * zs.filter(touches(p)).len()) as u32,
        ..p
    }
}

/// The plants that still stand after one tick of bites.
pub open spec fn bitten_plants(ps: Seq<Plant>, zs: Seq<Zombie>) -> Seq<Plant> {
    ps.map_values(|p: Plant| bitten(p, zs)).filter(is_standing())
}

pub open spec fn blocked_by(z: Zombie, ps: Seq<Plant>) -> bool {
    exists|k: int| 0 <= k < ps.len() && near(#[trigger] ps[k], z)
}

/// The zombies with their blocked flag recomputed: blocked exactly when a
/// standing plant touches them.
pub open spec fn reblocked(zs: Seq<Zombie>, ps: Seq<Plant>) -> Seq<Zombie> {
    zs.map_values(|z: Zombie| Zombie { is_blocked: blocked_by(z, ps), ..z })
}

/// The health a plant is left with after the bites of one tick.
fn bite_plant(p: &Plant, zombies: &Vec<Zombie>) -> (r: u32)
    requires
        plant_wf(*p),
        all_zombies_loose(zombies@),
    ensures
        r == bitten(*p, zombies@).health,
{
    let mut h: u32 = p.health;
    let mut j: usize = 0;
    while j < zombies.len()
        invariant
            j <= zombies@.len(),
            plant_wf(*p),
            all_zombies_loose(zombies@),
            h == damage(p.health as int, BITE_DAMAGE * zombies@.take(j as int).filter(touches(*p)).len()),
        decreases zombies@.len() - j,
    {
        proof {
            lemma_filter_take(zombies@, touches(*p), j as int);
        }
        if near_exec(p, &zombies[j]) {
            h = h.saturating_sub(BITE_DAMAGE);
        }
        j = j + 1;
    }
    assert(zombies@.take(zombies@.len() as int) =~= zombies@);
    h
}

/// Whether some plant touches a zombie.
fn is_blocked_by(z: &Zombie, plants: &Vec<Plant>) -> (r: bool)
    requires
        zombie_loose(*z),
        all_plants_wf(plants@),
    ensures
        r == blocked_by(*z, plants@),
{
    let mut k: usize = 0;
    while k < plants.len()
        invariant
            k <= plants@.len(),
            zombie_loose(*z),
            all_plants_wf(plants@),
            forall|m: int| 0 <= m < k ==> !near(#[trigger] plants@[m], *z),
        decreases plants@.len() - k,
    {
        if near_exec(&plants[k], z) {
            return true;
        }
        k = k + 1;
    }
    false
}

/// Zombies bite the plants they touch; plants left with no health are gone,
/// and every zombie is blocked exactly when a plant that still stands touches it.
pub fn bite(plants: &Vec<Plant>, zombies: &Vec<Zombie>) -> (r: (Vec<Plant>, Vec<Zombie>))
    requires
        all_plants_wf(plants@),
        cells_unique(plants@),
        all_zombies_loose(zombies@),
    ensures
        r.0@ == bitten_plants(plants@, zombies@),
        cells_unique(r.0@),
        r.1@ == reblocked(zombies@, r.0@),
        all_plants_wf(r.0@),
        all_zombies_loose(r.1@),
{
    let ghost hit = plants@.map_values(|p: Plant| bitten(p, zombies@));
    let mut standing: Vec<Plant> = Vec::new();
    let mut i: usize = 0;
    while i < plants.len()
        invariant
            i <= plants@.len(),
            all_plants_wf(plants@),
            all_zombies_loose(zombies@),
            all_plants_wf(standing@),
            cells_unique(plants@),
            cells_unique(standing@),
            forall|m: int|
                0 <= m < standing@.len() ==> exists|k: int|
                    0 <= k < i && (#[trigger] standing@[m]).cell == plants@[k].cell,
            hit == plants@.map_values(|p: Plant| bitten(p, zombies@)),
            standing@ == hit.take(i as int).filter(is_standing()),
        decreases plants@.len() - i,
    {
        let p = plants[i];
        proof {
            lemma_filter_take(hit, is_standing(), i as int);
        }
        let h = bite_plant(&p, zombies);
        if h > 0 {
            let ghost before = standing@;
            standing.push(Plant { health: h, ..p });
            proof {
                assert forall|m: int| 0 <= m < before.len() implies before[m].cell != p.cell by {
                    let k = choose|k: int| 0 <= k < i && before[m].cell == plants@[k].cell;
                    assert(plants@[k].cell != plants@[i as int].cell);
                }
                assert forall|a: int, b: int| 0 <= a < b < standing@.len() implies
                    #[trigger] standing@[a].cell != #[trigger] standing@[b].cell by {
                    if b < before.len() {
                        assert(before[a].cell != before[b].cell);
                    }
                }
                assert forall|m: int| 0 <= m < standing@.len() implies exists|k: int|
                    0 <= k < i + 1 && (#[trigger] standing@[m]).cell == plants@[k].cell by {
                    if m < before.len() {
                        let k = choose|k: int| 0 <= k < i && before[m].cell == plants@[k].cell;
                        assert(standing@[m] == before[m]);
                    } else {
                        assert(standing@[m].cell == plants@[i as int].cell);
                    }
                }
            }
        }
        i = i + 1;
    }
    assert(hit.take(hit.len() as int) =~= hit);
    let mut out: Vec<Zombie> = Vec::new();
    let mut j: usize = 0;
    while j < zombies.len()
        invariant
            j <= zombies@.len(),
            all_plants_wf(standing@),
            all_zombies_loose(zombies@),
            all_zombies_loose(out@),
            out@ == reblocked(zombies@.take(j as int), standing@),
        decreases zombies@.len() - j,
    {
        let z = zombies[j];
        let blocked = is_blocked_by(&z, &standing);
        out.push(Zombie { is_blocked: blocked, ..z });
        j = j + 1;
        assert(out@ =~= reblocked(zombies@.take(j as int), standing@));
    }
    assert(zombies@.take(zombies@.len() as int) =~= zombies@);
    (standing, out)
}

pub open spec fn is_on_lawn() -> spec_fn(Zombie) -> bool {
    |z: Zombie| !crossed(z)
}

pub open spec fn any_crossed(zs: Seq<Zombie>) -> bool {
    exists|k: int| 0 <= k < zs.len() && crossed(#[trigger] zs[k])
}

/// Removes the zombies that walked past the left edge; says whether there was one.
pub fn clear_crossed(zombies: &Vec<Zombie>) -> (r: (bool, Vec<Zombie>))
    requires
        all_zombies_loose(zombies@),
    ensures
        r.0 == any_crossed(zombies@),
        r.1@ == zombies@.filter(is_on_lawn()),
        all_zombies_wf(r.1@),
{
    let mut lost = false;
    let mut out: Vec<Zombie> = Vec::new();
    let mut j: usize = 0;
    while j < zombies.len()
        invariant
            j <= zombies@.len(),
            all_zombies_loose(zombies@),
            all_zombies_wf(out@),
            lost == any_crossed(zombies@.take(j as int)),
            out@ == zombies@.take(j as int).filter(is_on_lawn()),
        decreases zombies@.len() - j,
    {
        let z = zombies[j];
        proof {
            lemma_filter_take(zombies@, is_on_lawn(), j as int);
            assert(zombies@.take(j + 1)[j as int] == z);
            if any_crossed(zombies@.take(j as int)) {
                let k = choose|k: int| 0 <= k < j && crossed(#[trigger] zombies@.take(j as int)[k]);
                assert(zombies@.take(j + 1)[k] == zombies@.take(j as int)[k]);
            }
            if any_crossed(zombies@.take(j + 1)) {
                let k = choose|k: int| 0 <= k < j + 1 && crossed(#[trigger] zombies@.take(j + 1)[k]);
                if k < j {
                    assert(zombies@.take(j as int)[k] == zombies@.take(j + 1)[k]);
                }
            }
        }
        if z.position.x < 0 {
            lost = true;
        } else {
            out.push(z);
        }
        j = j + 1;
    }
    assert(zombies@.take(zombies@.len() as int) =~= zombies@);
    (lost, out)
}

} // verus!
