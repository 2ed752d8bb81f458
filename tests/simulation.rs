use pvz::config::{
    BULLET_DAMAGE, CELL_SIZE, GRID_COLUMNS, GRID_ROWS, PEASHOOTER_SHOOT_INTERVAL, PLANT_HEALTH,
    SPAWN_INTERVAL, SUN_PRODUCE_INTERVAL, SUN_VALUE, TOOLBAR_HEIGHT, WINDOW_WIDTH, ZOMBIE_HEALTH,
    ZOMBIE_SPEED_MAX, ZOMBIE_SPEED_MIN,
};
use pvz::entities::{Bullet, Plant, PlantType, Sun, Zombie};
use pvz::game::{plant_cost, MyGame};
use pvz::grid::{cell_to_screen, screen_to_cell, Point};
use pvz::ledger::Ledger;

fn center(row: usize, col: usize) -> Point {
    cell_to_screen((row, col))
}

fn plant(row: usize, col: usize, t: PlantType, health: u32) -> Plant {
    Plant { cell: (row, col), plant_type: t, health, last_sun_time: 0, last_shoot_time: 0 }
}

fn zombie(x: i64, row: usize, speed: i64, health: u32) -> Zombie {
    Zombie { position: Point { x, y: center(row, 0).y }, speed, health, is_blocked: false }
}

fn snapshot(g: &MyGame) -> String {
    format!(
        "{:?} {} {:?} {:?} {:?} {:?} {} {} {}",
        g.selected_plant,
        g.ledger.balance(),
        g.plants,
        g.zombies,
        g.suns,
        g.bullets,
        g.spawn_timer,
        g.game_over,
        g.tick
    )
}

#[test]
fn coordinate_round_trip() {
    for r in 0..GRID_ROWS {
        for c in 0..GRID_COLUMNS {
            let p = cell_to_screen((r, c));
            assert_eq!(screen_to_cell(p.x, p.y), Some((r, c)));
        }
    }
}

#[test]
fn cell_center_values() {
    assert_eq!(cell_to_screen((0, 0)), Point { x: 4000, y: 14000 });
    assert_eq!(cell_to_screen((2, 3)), Point { x: 28000, y: 30000 });
}

#[test]
fn screen_to_cell_outside_lawn() {
    assert_eq!(screen_to_cell(5000, TOOLBAR_HEIGHT - 1), None);
    assert_eq!(screen_to_cell(-1, 20000), None);
    assert_eq!(screen_to_cell(CELL_SIZE * 9, 20000), None);
    assert_eq!(screen_to_cell(100, TOOLBAR_HEIGHT + CELL_SIZE * 5), None);
    assert_eq!(screen_to_cell(CELL_SIZE * 9 - 1, TOOLBAR_HEIGHT), Some((0, 8)));
    assert_eq!(screen_to_cell(7999, 25999), Some((1, 0)));
}

#[test]
fn ledger_debit_and_credit() {
    let mut l = Ledger::new(50);
    assert!(!l.try_debit(60));
    assert_eq!(l.balance(), 50);
    assert!(l.try_debit(50));
    assert_eq!(l.balance(), 0);
    l.credit(25);
    assert_eq!(l.balance(), 25);
    assert!(!l.try_debit(26));
    assert_eq!(l.balance(), 25);
}

#[test]
fn ledger_credit_saturates() {
    let mut l = Ledger::new(u64::MAX - 1);
    l.credit(5);
    assert_eq!(l.balance(), u64::MAX);
}

#[test]
fn plant_costs() {
    assert_eq!(plant_cost(PlantType::Sunflower), 50);
    assert_eq!(plant_cost(PlantType::Peashooter), 100);
}

#[test]
fn new_game_is_empty() {
    let g = MyGame::new();
    assert_eq!(g.ledger.balance(), 50);
    assert!(g.plants.is_empty() && g.zombies.is_empty() && g.suns.is_empty());
    assert!(g.bullets.is_empty());
    assert_eq!(g.selected_plant, None);
    assert!(!g.game_over);
}

#[test]
fn scenario_a_second_placement_unaffordable() {
    let mut g = MyGame::new();
    g.select_plant(PlantType::Sunflower);
    g.handle_click(4000, 14000);
    assert_eq!(g.ledger.balance(), 0);
    assert_eq!(g.plants.len(), 1);
    assert_eq!(g.plants[0].cell, (0, 0));
    assert_eq!(g.plants[0].health, PLANT_HEALTH);
    g.handle_click(12000, 14000);
    assert_eq!(g.ledger.balance(), 0);
    assert_eq!(g.plants.len(), 1);
}

#[test]
fn one_plant_per_cell() {
    let mut g = MyGame::new();
    g.ledger = Ledger::new(1000);
    g.select_plant(PlantType::Peashooter);
    g.handle_click(4000, 14000);
    g.handle_click(5000, 15000);
    g.select_plant(PlantType::Sunflower);
    g.handle_click(7000, 17000);
    assert_eq!(g.plants.len(), 1);
    assert_eq!(g.plants[0].plant_type, PlantType::Peashooter);
    assert_eq!(g.ledger.balance(), 900);
}

#[test]
fn click_without_selection_places_nothing() {
    let mut g = MyGame::new();
    g.handle_click(4000, 14000);
    assert!(g.plants.is_empty());
    assert_eq!(g.ledger.balance(), 50);
}

#[test]
fn toolbar_buttons_select() {
    let mut g = MyGame::new();
    g.handle_click(14000, 5000);
    assert_eq!(g.selected_plant, Some(PlantType::Sunflower));
    g.handle_click(24000, 5000);
    assert_eq!(g.selected_plant, Some(PlantType::Peashooter));
    g.handle_click(50000, 5000);
    assert_eq!(g.selected_plant, Some(PlantType::Peashooter));
    g.handle_click(34000, 5000);
    assert_eq!(g.selected_plant, None);
    g.select_plant(PlantType::Sunflower);
    g.clear_selection();
    assert_eq!(g.selected_plant, None);
}

#[test]
fn scenario_b_sunflower_produces_after_interval() {
    let mut g = MyGame::new();
    g.select_plant(PlantType::Sunflower);
    g.handle_click(28000, 30000);
    for _ in 0..SUN_PRODUCE_INTERVAL - 1 {
        g.step_with(0, 100);
    }
    assert!(g.suns.is_empty());
    assert_eq!(g.plants[0].last_sun_time, SUN_PRODUCE_INTERVAL - 1);
    g.step_with(0, 100);
    assert_eq!(g.suns.len(), 1);
    assert_eq!(g.plants[0].last_sun_time, 0);
    // The sun appears at the center and falls one step in the same tick.
    assert_eq!(g.suns[0].position.x, 28000);
    assert_eq!(g.suns[0].position.y, 30000 + 50);
    assert!(!g.suns[0].is_collected);
}

#[test]
fn sun_stops_falling() {
    let mut g = MyGame::new();
    g.suns.push(Sun { position: Point { x: 1000, y: 20000 }, is_collected: false, fall_timer: 0 });
    for _ in 0..200 {
        g.step_with(0, 100);
    }
    assert_eq!(g.suns[0].fall_timer, 120);
    assert_eq!(g.suns[0].position.y, 20000 + 120 * 50);
}

#[test]
fn click_collects_every_close_sun() {
    let mut g = MyGame::new();
    g.suns.push(Sun { position: Point { x: 20000, y: 30000 }, is_collected: false, fall_timer: 0 });
    g.suns.push(Sun { position: Point { x: 21000, y: 31000 }, is_collected: false, fall_timer: 0 });
    g.suns.push(Sun { position: Point { x: 40000, y: 30000 }, is_collected: false, fall_timer: 0 });
    g.handle_click(20500, 30500);
    assert_eq!(g.ledger.balance(), 50 + 2 * SUN_VALUE);
    assert_eq!(g.suns.len(), 1);
    assert_eq!(g.suns[0].position.x, 40000);
}

#[test]
fn collected_sun_pays_for_placement() {
    let mut g = MyGame::new();
    g.ledger = Ledger::new(75);
    g.suns.push(Sun { position: Point { x: 4000, y: 14000 }, is_collected: false, fall_timer: 0 });
    g.select_plant(PlantType::Peashooter);
    g.handle_click(4000, 14000);
    assert!(g.suns.is_empty());
    assert_eq!(g.plants.len(), 1);
    assert_eq!(g.ledger.balance(), 0);
}

#[test]
fn peashooter_shoots_after_interval() {
    let mut g = MyGame::new();
    g.plants.push(plant(3, 1, PlantType::Peashooter, PLANT_HEALTH));
    for _ in 0..PEASHOOTER_SHOOT_INTERVAL - 1 {
        g.step_with(0, 100);
    }
    assert!(g.bullets.is_empty());
    g.step_with(0, 100);
    assert_eq!(g.bullets.len(), 1);
    assert_eq!(g.bullets[0].row, 3);
    assert_eq!(g.bullets[0].position, Point { x: 12000 + 200, y: center(3, 1).y });
    assert_eq!(g.plants[0].last_shoot_time, 0);
}

#[test]
fn bullet_leaves_playfield() {
    let mut g = MyGame::new();
    g.bullets.push(Bullet { position: Point { x: WINDOW_WIDTH - 300, y: 30000 }, row: 2 });
    g.step_with(0, 100);
    assert_eq!(g.bullets.len(), 1);
    assert_eq!(g.bullets[0].position.x, WINDOW_WIDTH - 100);
    g.step_with(0, 100);
    assert!(g.bullets.is_empty());
}

#[test]
fn scenario_c_pea_meets_zombie() {
    let mut g = MyGame::new();
    g.zombies.push(zombie(WINDOW_WIDTH, 2, 100, ZOMBIE_HEALTH));
    g.bullets.push(Bullet { position: Point { x: 0, y: center(2, 0).y }, row: 2 });
    for _ in 0..260 {
        g.step_with(0, 100);
        assert_eq!(g.zombies[0].health, ZOMBIE_HEALTH);
        assert_eq!(g.bullets.len(), 1);
    }
    g.step_with(0, 100);
    assert_eq!(g.zombies[0].health, ZOMBIE_HEALTH - BULLET_DAMAGE);
    assert!(g.bullets.is_empty());
}

#[test]
fn pea_in_other_row_misses() {
    let mut g = MyGame::new();
    g.zombies.push(zombie(10000, 2, 0, ZOMBIE_HEALTH));
    g.bullets.push(Bullet { position: Point { x: 10000, y: center(2, 0).y }, row: 1 });
    g.step_with(0, 100);
    assert_eq!(g.zombies[0].health, ZOMBIE_HEALTH);
    assert_eq!(g.bullets.len(), 1);
}

#[test]
fn pea_strikes_only_first_zombie() {
    let mut g = MyGame::new();
    g.zombies.push(zombie(10000, 2, 0, ZOMBIE_HEALTH));
    g.zombies.push(zombie(10100, 2, 0, ZOMBIE_HEALTH));
    g.bullets.push(Bullet { position: Point { x: 9800, y: center(2, 0).y }, row: 2 });
    g.step_with(0, 100);
    assert_eq!(g.zombies[0].health, ZOMBIE_HEALTH - BULLET_DAMAGE);
    assert_eq!(g.zombies[1].health, ZOMBIE_HEALTH);
    assert!(g.bullets.is_empty());
}

#[test]
fn zombie_health_saturates_at_zero() {
    let mut g = MyGame::new();
    g.zombies.push(zombie(10000, 2, 0, 5));
    g.zombies.push(zombie(30000, 2, 0, 15));
    g.bullets.push(Bullet { position: Point { x: 9800, y: center(2, 0).y }, row: 2 });
    g.bullets.push(Bullet { position: Point { x: 9900, y: center(2, 0).y }, row: 2 });
    g.bullets.push(Bullet { position: Point { x: 29800, y: center(2, 0).y }, row: 2 });
    g.step_with(0, 100);
    assert_eq!(g.zombies.len(), 1);
    assert_eq!(g.zombies[0].health, 5);
    assert!(g.bullets.is_empty());
}

#[test]
fn scenario_d_blocked_until_plant_falls() {
    let mut g = MyGame::new();
    g.plants.push(plant(2, 0, PlantType::Sunflower, 3));
    g.zombies.push(zombie(6000, 2, 100, ZOMBIE_HEALTH));
    g.step_with(0, 100);
    assert_eq!(g.zombies[0].position.x, 5900);
    assert!(g.zombies[0].is_blocked);
    assert_eq!(g.plants[0].health, 2);
    g.step_with(0, 100);
    assert_eq!(g.zombies[0].position.x, 5900);
    assert_eq!(g.plants[0].health, 1);
    g.step_with(0, 100);
    assert_eq!(g.zombies[0].position.x, 5900);
    assert!(g.plants.is_empty());
    assert!(!g.zombies[0].is_blocked);
    g.step_with(0, 100);
    assert_eq!(g.zombies[0].position.x, 5800);
}

#[test]
fn plant_health_saturates_at_zero() {
    let mut g = MyGame::new();
    g.plants.push(plant(2, 0, PlantType::Peashooter, 1));
    g.plants.push(plant(2, 4, PlantType::Peashooter, PLANT_HEALTH));
    g.zombies.push(zombie(4100, 2, 0, ZOMBIE_HEALTH));
    g.zombies.push(zombie(3900, 2, 0, ZOMBIE_HEALTH));
    g.step_with(0, 100);
    assert_eq!(g.plants.len(), 1);
    assert_eq!(g.plants[0].cell, (2, 4));
    assert!(!g.zombies[0].is_blocked && !g.zombies[1].is_blocked);
}

#[test]
fn blocked_by_any_plant() {
    let mut g = MyGame::new();
    g.plants.push(plant(2, 0, PlantType::Sunflower, PLANT_HEALTH));
    g.plants.push(plant(2, 1, PlantType::Sunflower, PLANT_HEALTH));
    g.zombies.push(zombie(6100, 2, 100, ZOMBIE_HEALTH));
    g.step_with(0, 100);
    assert!(g.zombies[0].is_blocked);
    assert_eq!(g.plants[0].health, PLANT_HEALTH - 1);
    assert_eq!(g.plants[1].health, PLANT_HEALTH);
}

#[test]
fn scenario_e_zombie_crosses_left_edge() {
    let mut g = MyGame::new();
    g.zombies.push(zombie(50, 4, 100, ZOMBIE_HEALTH));
    g.zombies.push(zombie(40000, 1, 100, ZOMBIE_HEALTH));
    g.step_with(0, 100);
    assert!(g.game_over);
    assert_eq!(g.zombies.len(), 1);
    assert_eq!(g.zombies[0].position.x, 39900);
}

#[test]
fn game_over_freezes_everything() {
    let mut g = MyGame::new();
    g.plants.push(plant(0, 0, PlantType::Sunflower, PLANT_HEALTH));
    g.zombies.push(zombie(50, 4, 100, ZOMBIE_HEALTH));
    g.suns.push(Sun { position: Point { x: 20000, y: 30000 }, is_collected: false, fall_timer: 0 });
    g.step_with(0, 100);
    assert!(g.game_over);
    let before = snapshot(&g);
    for _ in 0..500 {
        g.step_with(1, 90);
        g.step();
    }
    g.handle_click(20000, 30000);
    g.handle_click(14000, 5000);
    assert!(g.game_over);
    assert_eq!(before, snapshot(&g));
}

#[test]
fn zombie_spawns_at_interval() {
    let mut g = MyGame::new();
    for _ in 0..SPAWN_INTERVAL - 1 {
        g.step_with(3, 90);
    }
    assert!(g.zombies.is_empty());
    g.step_with(3, 90);
    assert_eq!(g.zombies.len(), 1);
    assert_eq!(g.zombies[0].position, Point { x: WINDOW_WIDTH, y: center(3, 0).y });
    assert_eq!(g.zombies[0].speed, 90);
    assert_eq!(g.zombies[0].health, ZOMBIE_HEALTH);
    assert_eq!(g.spawn_timer, 0);
}

#[test]
fn random_spawn_stays_in_range() {
    for _ in 0..20 {
        let mut g = MyGame::new();
        g.spawn_timer = SPAWN_INTERVAL - 1;
        g.step();
        assert_eq!(g.zombies.len(), 1);
        let z = g.zombies[0];
        assert!(z.speed >= ZOMBIE_SPEED_MIN && z.speed < ZOMBIE_SPEED_MAX);
        let row = screen_to_cell(100, z.position.y).unwrap().0;
        assert!(row < GRID_ROWS);
        assert_eq!(z.position.y, center(row, 0).y);
        assert_eq!(g.tick, 1);
    }
}
