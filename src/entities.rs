use vstd::prelude::*;
use crate::config::{
    BLOCK_HALF_HEIGHT, BLOCK_HALF_WIDTH, HIT_RADIUS, PEASHOOTER_SHOOT_INTERVAL, POS_LIMIT,
    SPEED_LIMIT, SUN_FALL_SPEED, SUN_FALL_TICKS, SUN_PRODUCE_INTERVAL, TOOLBAR_HEIGHT,
    CELL_SIZE,
};
use crate::grid::{cell_center, center_x, center_y, valid_cell, Point};

verus! {

#[derive(Clone, Copy, Debug, PartialEq, Eq, Structural)]
pub enum PlantType {
    /// Produces sun.
    Sunflower,
    /// Shoots peas along its row.
    Peashooter,
}

/// A plant on the lawn.
#[derive(Clone, Copy, Debug)]
pub struct Plant {
    /// (row, column)
    pub cell: (usize, usize),
    pub plant_type: PlantType,
    pub health: u32,
    /// Ticks since this sunflower last produced a sun.
    pub last_sun_time: u32,
    /// Ticks since this peashooter last shot.
    pub last_shoot_time: u32,
}

#[derive(Clone, Copy, Debug)]
pub struct Zombie {
    pub position: Point,
    /// Distance walked left in one tick.
    pub speed: i64,
    pub health: u32,
    /// Whether a plant stood in the way at the last tick.
    pub is_blocked: bool,
}

#[derive(Clone, Copy, Debug)]
pub struct Sun {
    pub position: Point,
    pub is_collected: bool,
    /// Ticks this sun has fallen.
    pub fall_timer: u32,
}

/// A pea flying right along a row.
#[derive(Clone, Copy, Debug)]
pub struct Bullet {
    pub position: Point,
    pub row: usize,
}

pub open spec fn abs(v: int) -> int {
    if v < 0 {
        -v
    } else {
        v
    }
}

/// Health left after `amount` of damage: it stops at zero.
pub open spec fn damage(health: int, amount: int) -> int {
    if health > amount {
        health - amount
    } else {
        0
    }
}

pub open spec fn in_bounds(v: int) -> bool {
    -POS_LIMIT <= v <= POS_LIMIT
}

pub open spec fn plant_wf(p: Plant) -> bool {
    &&& valid_cell(p.cell)
    &&& p.last_sun_time < SUN_PRODUCE_INTERVAL
    &&& p.last_shoot_time < PEASHOOTER_SHOOT_INTERVAL
}

pub open spec fn zombie_wf(z: Zombie) -> bool {
    &&& in_bounds(z.position.x as int)
    &&& in_bounds(z.position.y as int)
    &&& 0 <= z.speed <= SPEED_LIMIT
}

/// A zombie that may have walked up to one step past the bounds.
pub open spec fn zombie_loose(z: Zombie) -> bool {
    &&& -POS_LIMIT - SPEED_LIMIT <= z.position.x <= POS_LIMIT
    &&& in_bounds(z.position.y as int)
    &&& 0 <= z.speed <= SPEED_LIMIT
}

pub open spec fn sun_wf(s: Sun) -> bool {
    &&& in_bounds(s.position.x as int)
    &&& -POS_LIMIT <= s.position.y <= POS_LIMIT + s.fall_timer * SUN_FALL_SPEED
    &&& s.fall_timer <= SUN_FALL_TICKS
}

pub open spec fn bullet_wf(b: Bullet) -> bool {
    &&& in_bounds(b.position.x as int)
    &&& in_bounds(b.position.y as int)
}

/// A pea that may have flown up to one step past the bounds.
pub open spec fn bullet_loose(b: Bullet) -> bool {
    &&& -POS_LIMIT <= b.position.x <= 2 * POS_LIMIT
    &&& in_bounds(b.position.y as int)
}

pub open spec fn sun_due(p: Plant) -> bool {
    p.plant_type == PlantType::Sunflower && p.last_sun_time + 1 >= SUN_PRODUCE_INTERVAL
}

pub open spec fn shot_due(p: Plant) -> bool {
    p.plant_type == PlantType::Peashooter && p.last_shoot_time + 1 >= PEASHOOTER_SHOOT_INTERVAL
}

/// A plant after one tick of its sun timer (only sunflowers have one running).
pub open spec fn tick_sunflower(p: Plant) -> Plant {
    if p.plant_type != PlantType::Sunflower {
        p
    } else {
        Plant {
            last_sun_time: if sun_due(p) { 0 } else { (p.last_sun_time + 1) as u32 },
            ..p
        }
    }
}

/// A plant after one tick of its shooting timer (only peashooters have one running).
pub open spec fn tick_peashooter(p: Plant) -> Plant {
    if p.plant_type != PlantType::Peashooter {
        p
    } else {
        Plant {
            last_shoot_time: if shot_due(p) { 0 } else { (p.last_shoot_time + 1) as u32 },
            ..p
        }
    }
}

/// The sun a sunflower drops: at the center of its cell.
pub open spec fn new_sun(p: Plant) -> Sun {
    Sun { position: cell_center(p.cell), is_collected: false, fall_timer: 0 }
}

/// The pea a peashooter shoots: from the center of its cell, along its row.
pub open spec fn new_bullet(p: Plant) -> Bullet {
    Bullet { position: cell_center(p.cell), row: p.cell.0 }
}

/// A sun after one tick: it falls while uncollected, for a bounded number of ticks.
pub open spec fn fall_sun(s: Sun) -> Sun {
    if !s.is_collected && s.fall_timer < SUN_FALL_TICKS {
        Sun {
            position: Point { x: s.position.x, y: (s.position.y + SUN_FALL_SPEED) as i64 },
            fall_timer: (s.fall_timer + 1) as u32,
            ..s
        }
    } else {
        s
    }
}

pub open spec fn move_bullet(b: Bullet) -> Bullet {
    Bullet {
        position: Point {
            x: (b.position.x + crate::config::PEASHOOTER_BULLET_SPEED) as i64,
            y: b.position.y,
        },
        ..b
    }
}

/// A zombie after one tick of walking: a blocked zombie stays put.
pub open spec fn walk_zombie(z: Zombie) -> Zombie {
    if z.is_blocked {
        z
    } else {
        Zombie { position: Point { x: (z.position.x - z.speed) as i64, y: z.position.y }, ..z }
    }
}

/// Whether a pea hits a zombie: the zombie stands in the pea's row and close on both axes.
pub open spec fn hits(b: Bullet, z: Zombie) -> bool {
    &&& z.position.y >= TOOLBAR_HEIGHT
    &&& (z.position.y - TOOLBAR_HEIGHT) / (CELL_SIZE as int) == b.row
    &&& abs(z.position.x - b.position.x) < HIT_RADIUS
    &&& abs(z.position.y - b.position.y) < HIT_RADIUS
}

/// Whether a zombie touches a plant, which then blocks it.
pub open spec fn near(p: Plant, z: Zombie) -> bool {
    &&& abs(z.position.x - center_x(p.cell.1 as int)) < BLOCK_HALF_WIDTH
    &&& abs(z.position.y - center_y(p.cell.0 as int)) < BLOCK_HALF_HEIGHT
}

pub open spec fn crossed(z: Zombie) -> bool {
    z.position.x < 0
}

pub fn hits_exec(b: &Bullet, z: &Zombie) -> (r: bool)
    requires
        bullet_loose(*b),
        zombie_wf(*z),
    ensures
        r == hits(*b, *z),
{
    let dx = z.position.x - b.position.x;
    let dy = z.position.y - b.position.y;
    z.position.y >= TOOLBAR_HEIGHT && ((z.position.y - TOOLBAR_HEIGHT) / CELL_SIZE) as usize == b.row
        && -HIT_RADIUS < dx && dx < HIT_RADIUS && -HIT_RADIUS < dy && dy < HIT_RADIUS
}

pub fn near_exec(p: &Plant, z: &Zombie) -> (r: bool)
    requires
        plant_wf(*p),
        zombie_loose(*z),
    ensures
        r == near(*p, *z),
{
    let c = crate::grid::cell_to_screen(p.cell);
    let dx = z.position.x - c.x;
    let dy = z.position.y - c.y;
    -BLOCK_HALF_WIDTH < dx && dx < BLOCK_HALF_WIDTH && -BLOCK_HALF_HEIGHT < dy && dy < BLOCK_HALF_HEIGHT
}

} // verus!
