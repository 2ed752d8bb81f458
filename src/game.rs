use vstd::prelude::*;
use rand::Rng;
use crate::config::{
    CELL_SIZE,
    BUTTON_HEIGHT, BUTTON_WIDTH, BUTTON_Y, CANCEL_BUTTON_X, COLLECT_RADIUS, GRID_ROWS,
    PEASHOOTER_BUTTON_X, PEASHOOTER_COST, PLANT_HEALTH, SPAWN_INTERVAL, START_SUN,
    SUNFLOWER_BUTTON_X, SUNFLOWER_COST, SUN_VALUE, TOOLBAR_HEIGHT, WINDOW_WIDTH, ZOMBIE_HEALTH,
    ZOMBIE_SPEED_MAX, ZOMBIE_SPEED_MIN,
};
use crate::entities::{abs, damage, Bullet, Plant, PlantType, Sun, Zombie};
use crate::grid::{cell_at, center_y, screen_to_cell, Point};
use crate::ledger::{credit_result, debit_result, Ledger};
use crate::stages::{
    all_bullets_wf, all_plants_wf, all_suns_wf, all_zombies_wf, any_crossed, cells_unique, bite, bitten_plants,
    clear_crossed, dropped_suns, fall, fallen_suns, fired_bullets, is_on_lawn, lemma_filter_take,
    move_bullets, moved_bullets, produce, reblocked, resolve_hits, shoot, struck_zombies,
    surviving_bullets, tick_peashooters, tick_sunflowers, walk, walked_zombies,
};

verus! {

/// What a game holds, as mathematical values.
pub struct GameView {
    pub selected_plant: Option<PlantType>,
    pub sun: int,
    pub plants: Seq<Plant>,
    pub zombies: Seq<Zombie>,
    pub spawn_timer: u32,
    pub suns: Seq<Sun>,
    pub bullets: Seq<Bullet>,
    pub game_over: bool,
    pub tick: u64,
}

/// The state of a game: the lawn and everything on it, the sun balance and
/// the plant type chosen for the next placement.
pub struct MyGame {
    pub selected_plant: Option<PlantType>,
    pub ledger: Ledger,
    pub plants: Vec<Plant>,
    pub zombies: Vec<Zombie>,
    /// Ticks since the last zombie came.
    pub spawn_timer: u32,
    pub suns: Vec<Sun>,
    pub bullets: Vec<Bullet>,
    /// Set for good once a zombie walks past the left edge.
    pub game_over: bool,
    /// Ticks run so far; it stops at `u64::MAX`.
    pub tick: u64,
}

impl View for MyGame {
    type V = GameView;

    open spec fn view(&self) -> GameView {
        GameView {
            selected_plant: self.selected_plant,
            sun: self.ledger@,
            plants: self.plants@,
            zombies: self.zombies@,
            spawn_timer: self.spawn_timer,
            suns: self.suns@,
            bullets: self.bullets@,
            game_over: self.game_over,
            tick: self.tick,
        }
    }
}

pub open spec fn occupied(ps: Seq<Plant>, cell: (usize, usize)) -> bool {
    exists|k: int| 0 <= k < ps.len() && (#[trigger] ps[k]).cell == cell
}

pub open spec fn plant_cost_of(t: PlantType) -> u64 {
    match t {
        PlantType::Sunflower => SUNFLOWER_COST,
        PlantType::Peashooter => PEASHOOTER_COST,
    }
}

pub open spec fn new_plant(cell: (usize, usize), t: PlantType) -> Plant {
    Plant { cell, plant_type: t, health: PLANT_HEALTH, last_sun_time: 0, last_shoot_time: 0 }
}

/// The zombie that comes at the right edge of a row.
pub open spec fn spawned_zombie(row: usize, speed: i64) -> Zombie {
    Zombie {
        position: Point { x: WINDOW_WIDTH, y: center_y(row as int) as i64 },
        speed,
        health: ZOMBIE_HEALTH,
        is_blocked: false,
    }
}

pub open spec fn in_button(x: int, y: int, left: int) -> bool {
    left < x < left + BUTTON_WIDTH && BUTTON_Y < y < BUTTON_Y + BUTTON_HEIGHT
}

/// The selection after a click on the toolbar.
pub open spec fn toolbar_selection(sel: Option<PlantType>, x: int, y: int) -> Option<PlantType> {
    if in_button(x, y, SUNFLOWER_BUTTON_X as int) {
        Some(PlantType::Sunflower)
    } else if in_button(x, y, PEASHOOTER_BUTTON_X as int) {
        Some(PlantType::Peashooter)
    } else if in_button(x, y, CANCEL_BUTTON_X as int) {
        None
    } else {
        sel
    }
}

pub open spec fn near_click(s: Sun, x: int, y: int) -> bool {
    abs(s.position.x - x) < COLLECT_RADIUS && abs(s.position.y - y) < COLLECT_RADIUS
}

/// The suns a click at (x, y) collects: every uncollected one close to it.
pub open spec fn collected_by(x: int, y: int) -> spec_fn(Sun) -> bool {
    |s: Sun| !s.is_collected && near_click(s, x, y)
}

/// The suns left after a click at (x, y).
pub open spec fn left_by(x: int, y: int) -> spec_fn(Sun) -> bool {
    |s: Sun| !s.is_collected && !near_click(s, x, y)
}

/// The game after one tick, where a zombie that comes this tick comes in
/// `row` with `speed`.
pub open spec fn step_view(g: GameView, row: usize, speed: i64) -> GameView {
    if g.game_over {
        g
    } else {
        let plants1 = tick_sunflowers(g.plants);
        let suns = fallen_suns(g.suns + dropped_suns(g.plants));
        let plants2 = tick_peashooters(plants1);
        let bullets1 = moved_bullets(g.bullets + fired_bullets(plants1));
        let bullets = surviving_bullets(bullets1, g.zombies);
        let zombies1 = walked_zombies(struck_zombies(bullets1, g.zombies));
        let plants = bitten_plants(plants2, zombies1);
        let zombies2 = reblocked(zombies1, plants);
        let zombies3 = zombies2.filter(is_on_lawn());
        let due = g.spawn_timer + 1 >= SPAWN_INTERVAL;
        GameView {
            plants,
            zombies: if due { zombies3.push(spawned_zombie(row, speed)) } else { zombies3 },
            spawn_timer: if due { 0 } else { (g.spawn_timer + 1) as u32 },
            suns,
            bullets,
            game_over: any_crossed(zombies2),
            tick: if g.tick == u64::MAX { g.tick } else { (g.tick + 1) as u64 },
            ..g
        }
    }
}

/// The game after the suns near (x, y) are collected.
pub open spec fn collect_view(g: GameView, x: int, y: int) -> GameView {
    GameView {
        sun: credit_result(g.sun, SUN_VALUE * g.suns.filter(collected_by(x, y)).len()),
        suns: g.suns.filter(left_by(x, y)),
        ..g
    }
}

/// The game after a placement is tried at (x, y): a plant of the selected
/// type goes on a free cell there when its cost is affordable.
pub open spec fn place_view(g: GameView, x: int, y: int) -> GameView {
    match cell_at(x, y) {
        Some(cell) => match g.selected_plant {
            Some(t) => if !occupied(g.plants, cell) && g.sun >= plant_cost_of(t) {
                GameView {
                    sun: debit_result(g.sun, plant_cost_of(t) as int),
                    plants: g.plants.push(new_plant(cell, t)),
                    ..g
                }
            } else {
                g
            },
            None => g,
        },
        None => g,
    }
}

/// The game after a click at (x, y).
pub open spec fn click_view(g: GameView, x: int, y: int) -> GameView {
    if g.game_over {
        g
    } else if y < TOOLBAR_HEIGHT {
        GameView { selected_plant: toolbar_selection(g.selected_plant, x, y), ..g }
    } else {
        place_view(collect_view(g, x, y), x, y)
    }
}

/// Relies on rand's `thread_rng().gen_range(low..high)`: a value drawn from
/// `low..high`, which must not be empty.
#[verifier::external_body]
fn draw_in_range(low: u64, high: u64) -> (r: u64)
    requires
        low < high,
    ensures
        low <= r < high,
{
    rand::thread_rng().gen_range(low..high)
}

pub fn plant_cost(t: PlantType) -> (r: u64)
    ensures
        r == plant_cost_of(t),
{
    match t {
        PlantType::Sunflower => SUNFLOWER_COST,
        PlantType::Peashooter => PEASHOOTER_COST,
    }
}

impl MyGame {
    pub open spec fn wf(&self) -> bool {
        &&& self.ledger.wf()
        &&& all_plants_wf(self.plants@)
        &&& cells_unique(self.plants@)
        &&& all_zombies_wf(self.zombies@)
        &&& all_suns_wf(self.suns@)
        &&& all_bullets_wf(self.bullets@)
        &&& self.spawn_timer < SPAWN_INTERVAL
    }

    /// A new game: an empty lawn, the starting sun balance and nothing selected.
    pub fn new() -> (r: MyGame)
        ensures
            r.wf(),
            r@.selected_plant == None::<PlantType>,
            r@.sun == START_SUN,
            r@.plants.len() == 0,
            r@.zombies.len() == 0,
            r@.suns.len() == 0,
            r@.bullets.len() == 0,
            r@.spawn_timer == 0,
            !r@.game_over,
            r@.tick == 0,
    {
        MyGame {
            selected_plant: None,
            ledger: Ledger::new(START_SUN),
            plants: Vec::new(),
            zombies: Vec::new(),
            spawn_timer: 0,
            suns: Vec::new(),
            bullets: Vec::new(),
            game_over: false,
            tick: 0,
        }
    }

    /// Chooses the plant type that the next placement puts down.
    pub fn select_plant(&mut self, t: PlantType)
        ensures
            final(self)@ == (GameView { selected_plant: Some(t), ..old(self)@ }),
    {
        self.selected_plant = Some(t);
    }

    pub fn clear_selection(&mut self)
        ensures
            final(self)@ == (GameView { selected_plant: None, ..old(self)@ }),
    {
        self.selected_plant = None;
    }

    pub fn is_occupied(&self, cell: (usize, usize)) -> (r: bool)
        ensures
            r == occupied(self.plants@, cell),
    {
        let mut k: usize = 0;
        while k < self.plants.len()
            invariant
                k <= self.plants@.len(),
                forall|m: int| 0 <= m < k ==> (#[trigger] self.plants@[m]).cell != cell,
            decreases self.plants@.len() - k,
        {
            let c = self.plants[k].cell;
            if c.0 == cell.0 && c.1 == cell.1 {
                return true;
            }
            k = k + 1;
        }
        false
    }

    /// Runs one tick; a zombie that comes this tick comes in `row` with `speed`.
    /// A game that is over stays as it is.
    pub fn step_with(&mut self, row: usize, speed: i64)
        requires
            old(self).wf(),
            row < GRID_ROWS,
            ZOMBIE_SPEED_MIN <= speed < ZOMBIE_SPEED_MAX,
        ensures
            final(self).wf(),
            final(self)@ == step_view(old(self)@, row, speed),
            old(self).game_over ==> final(self)@ == old(self)@,
    {
        if self.game_over {
            return;
        }
        self.tick = self.tick.saturating_add(1);
        let plants1 = produce(&self.plants, &mut self.suns);
        self.suns = fall(&self.suns);
        let plants2 = shoot(&plants1, &mut self.bullets);
        let moved = move_bullets(&self.bullets);
        let (bullets, struck) = resolve_hits(&moved, &self.zombies);
        self.bullets = bullets;
        let walked = walk(&struck);
        let (plants, blocked) = bite(&plants2, &walked);
        self.plants = plants;
        let (lost, mut zombies) = clear_crossed(&blocked);
        self.game_over = lost;
        if self.spawn_timer + 1 >= SPAWN_INTERVAL {
            self.spawn_timer = 0;
            zombies.push(
                Zombie {
                    position: Point {
                        x: WINDOW_WIDTH,
                        y: row as i64 * CELL_SIZE + TOOLBAR_HEIGHT + CELL_SIZE / 2,
                    },
                    speed,
                    health: ZOMBIE_HEALTH,
                    is_blocked: false,
                },
            );
        } else {
            self.spawn_timer = self.spawn_timer + 1;
        }
        self.zombies = zombies;
    }

    /// Runs one tick, drawing at random the row and the speed of a zombie
    /// that comes this tick.
    pub fn step(&mut self)
        requires
            old(self).wf(),
        ensures
            final(self).wf(),
            exists|row: usize, speed: i64|
                row < GRID_ROWS && ZOMBIE_SPEED_MIN <= speed < ZOMBIE_SPEED_MAX && final(self)@
                    == step_view(old(self)@, row, speed),
            old(self).game_over ==> final(self)@ == old(self)@,
    {
        let row = draw_in_range(0, GRID_ROWS as u64) as usize;
        let speed = draw_in_range(ZOMBIE_SPEED_MIN as u64, ZOMBIE_SPEED_MAX as u64) as i64;
        self.step_with(row, speed);
    }

    /// Collects every uncollected sun close to (x, y), crediting each one.
    fn collect_suns(&mut self, x: i64, y: i64)
        requires
            old(self).wf(),
        ensures
            final(self).wf(),
            final(self)@ == collect_view(old(self)@, x as int, y as int),
    {
        let ghost suns = self.suns@;
        let mut kept: Vec<Sun> = Vec::new();
        let mut i: usize = 0;
        proof {
            reveal(Seq::filter);
            assert(suns.take(0).filter(collected_by(x as int, y as int)).len() == 0);
        }
        while i < self.suns.len()
            invariant
                i <= suns.len(),
                self.suns@ == suns,
                suns == old(self).suns@,
                self.ledger.wf(),
                self.ledger@ == credit_result(
                    old(self).ledger@,
                    SUN_VALUE * suns.take(i as int).filter(collected_by(x as int, y as int)).len(),
                ),
                kept@ == suns.take(i as int).filter(left_by(x as int, y as int)),
                all_suns_wf(suns),
                all_suns_wf(kept@),
                self.selected_plant == old(self).selected_plant,
                self.plants@ == old(self).plants@,
                self.zombies@ == old(self).zombies@,
                self.bullets@ == old(self).bullets@,
                self.spawn_timer == old(self).spawn_timer,
                self.game_over == old(self).game_over,
                self.tick == old(self).tick,
                old(self).wf(),
            decreases suns.len() - i,
        {
            let s = self.suns[i];
            proof {
                lemma_filter_take(suns, collected_by(x as int, y as int), i as int);
                lemma_filter_take(suns, left_by(x as int, y as int), i as int);
            }
            let dx = s.position.x as i128 - x as i128;
            let dy = s.position.y as i128 - y as i128;
            let close = -(COLLECT_RADIUS as i128) < dx && dx < COLLECT_RADIUS as i128 && -(
            COLLECT_RADIUS as i128) < dy && dy < COLLECT_RADIUS as i128;
            if !s.is_collected {
                if close {
                    self.ledger.credit(SUN_VALUE);
                } else {
                    kept.push(s);
                }
            }
            i = i + 1;
        }
        assert(suns.take(suns.len() as int) =~= suns);
        self.suns = kept;
    }

    /// Puts a plant of the selected type on the free cell under (x, y) if
    /// the balance covers its cost.
    fn try_place(&mut self, x: i64, y: i64)
        requires
            old(self).wf(),
        ensures
            final(self).wf(),
            final(self)@ == place_view(old(self)@, x as int, y as int),
    {
        match screen_to_cell(x, y) {
            Some(cell) => match self.selected_plant {
                Some(t) => {
                    if !self.is_occupied(cell) {
                        let cost = plant_cost(t);
                        if self.ledger.try_debit(cost) {
                            self.plants.push(
                                Plant {
                                    cell,
                                    plant_type: t,
                                    health: PLANT_HEALTH,
                                    last_sun_time: 0,
                                    last_shoot_time: 0,
                                },
                            );
                        }
                    }
                },
                None => {},
            },
            None => {},
        }
    }

    /// Handles a click at (x, y): on the toolbar it picks a button; on the
    /// lawn it collects the suns close to it and then tries to place a plant.
    /// A game that is over stays as it is.
    pub fn handle_click(&mut self, x: i64, y: i64)
        requires
            old(self).wf(),
        ensures
            final(self).wf(),
            final(self)@ == click_view(old(self)@, x as int, y as int),
            old(self).game_over ==> final(self)@ == old(self)@,
    {
        if self.game_over {
            return;
        }
        if y < TOOLBAR_HEIGHT {
            let in_row = BUTTON_Y < y && y < BUTTON_Y + BUTTON_HEIGHT;
            if in_row && SUNFLOWER_BUTTON_X < x && x < SUNFLOWER_BUTTON_X + BUTTON_WIDTH {
                self.selected_plant = Some(PlantType::Sunflower);
            } else if in_row && PEASHOOTER_BUTTON_X < x && x < PEASHOOTER_BUTTON_X + BUTTON_WIDTH {
                self.selected_plant = Some(PlantType::Peashooter);
            } else if in_row && CANCEL_BUTTON_X < x && x < CANCEL_BUTTON_X + BUTTON_WIDTH {
                self.selected_plant = None;
            }
            return;
        }
        self.collect_suns(x, y);
        self.try_place(x, y);
    }
}

/// One input to a game.
pub enum GameEvent {
    /// A tick, with the row and speed of a zombie that comes in it.
    Tick(usize, i64),
    /// A click at a screen point.
    Click(i64, i64),
}

pub open spec fn apply_event(g: GameView, e: GameEvent) -> GameView {
    match e {
        GameEvent::Tick(row, speed) => step_view(g, row, speed),
        GameEvent::Click(x, y) => click_view(g, x as int, y as int),
    }
}

/// The game after a sequence of events, applied in order.
pub open spec fn run_events(g: GameView, events: Seq<GameEvent>) -> GameView
    decreases events.len(),
{
    if events.len() == 0 {
        g
    } else {
        apply_event(run_events(g, events.drop_last()), events.last())
    }
}

/// Once a game is over, no sequence of ticks and clicks changes anything in it:
/// not the plants, zombies, suns or peas, not the balance and not the flag.
pub proof fn lemma_game_over_is_final(g: GameView, events: Seq<GameEvent>)
    requires
        g.game_over,
    ensures
        run_events(g, events) == g,
    decreases events.len(),
{
    if events.len() > 0 {
        lemma_game_over_is_final(g, events.drop_last());
    }
}

/// Health after a sequence of blows, dealt in order.
pub open spec fn damage_all(health: int, blows: Seq<int>) -> int
    decreases blows.len(),
{
    if blows.len() == 0 {
        health
    } else {
        damage(damage_all(health, blows.drop_last()), blows.last())
    }
}

pub open spec fn total(blows: Seq<int>) -> int
    decreases blows.len(),
{
    if blows.len() == 0 {
        0
    } else {
        total(blows.drop_last()) + blows.last()
    }
}

/// However many blows land, health never drops below zero: it is what is
/// left after their total, or zero.
pub proof fn lemma_damage_saturates(health: int, blows: Seq<int>)
    requires
        0 <= health,
        forall|k: int| 0 <= k < blows.len() ==> 0 <= #[trigger] blows[k],
    ensures
        damage_all(health, blows) >= 0,
        damage_all(health, blows) == damage(health, total(blows)),
    decreases blows.len(),
{
    if blows.len() > 0 {
        let rest = blows.drop_last();
        assert forall|k: int| 0 <= k < rest.len() implies 0 <= #[trigger] rest[k] by {
            assert(rest[k] == blows[k]);
        }
        lemma_damage_saturates(health, rest);
        assert(blows.last() == blows[blows.len() - 1]);
        lemma_total_nonnegative(rest);
    }
}

proof fn lemma_total_nonnegative(blows: Seq<int>)
    requires
        forall|k: int| 0 <= k < blows.len() ==> 0 <= #[trigger] blows[k],
    ensures
        total(blows) >= 0,
    decreases blows.len(),
{
    if blows.len() > 0 {
        let rest = blows.drop_last();
        assert forall|k: int| 0 <= k < rest.len() implies 0 <= #[trigger] rest[k] by {
            assert(rest[k] == blows[k]);
        }
        lemma_total_nonnegative(rest);
        assert(blows.last() == blows[blows.len() - 1]);
    }
}

} // verus!
