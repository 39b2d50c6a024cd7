use snake_game::game::{Game, Input, Outcome, FOOD_DRAWS, TIME_STEP};
use snake_game::geometry::{Cell, Direction};
use snake_game::snake::Snake;
use snake_game::wall::Wall;
use std::collections::VecDeque;

fn anchors(s: &Snake) -> Vec<(u16, u16)> {
    s.body.iter().map(|c| c.pos).collect()
}

fn game_of(cells: &[(u16, u16)], dir: Direction, food: (u16, u16)) -> Game {
    let body: VecDeque<Cell> = cells.iter().map(|&(x, y)| Cell::new(x, y)).collect();
    Game {
        wall: Wall::new(),
        snake: Snake { body, dir },
        food: Cell::new(food.0, food.1),
        score: 0,
        time: 0,
        time_step: TIME_STEP,
        is_over: false,
    }
}

fn in_interior(p: (u16, u16)) -> bool {
    p.0 % 2 == 0 && 2 < p.0 && p.0 < 62 && 1 < p.1 && p.1 < 32
}

/// Every interior position but (4, 4), as one connected path that ends at
/// (4, 31).
fn crowded_path() -> Vec<(u16, u16)> {
    let mut path: Vec<(u16, u16)> = vec![(4, 3), (4, 2)];
    for y in 2..32u16 {
        let first: u16 = if y <= 4 { 6 } else { 4 };
        let mut row: Vec<(u16, u16)> = Vec::new();
        let mut x = first;
        while x <= 60 {
            row.push((x, y));
            x += 2;
        }
        if y % 2 == 1 {
            row.reverse();
        }
        path.extend(row);
    }
    path
}

#[test]
fn new_game_starts_in_the_middle() {
    let g = Game::new(1234);
    assert_eq!(anchors(&g.snake), vec![(32, 16), (30, 16), (28, 16)]);
    assert_eq!(g.snake.dir, Direction::Right);
    assert_eq!(g.food.pos, (30, 30));
    assert_eq!(g.food.size, (2, 1));
    assert_eq!(g.score, 0);
    assert_eq!(g.time, 1234);
    assert_eq!(g.time_step, 150);
    assert!(!g.is_over);
    assert_eq!(g.wall.cells.len(), 122);
}

#[test]
fn straight_eat() {
    let mut g = Game::new(0);
    g.food = Cell::new(36, 16);
    assert_eq!(g.advance(), Outcome::Moved);
    assert_eq!(g.snake.head().pos, (34, 16));
    assert_eq!(g.snake.body.len(), 3);
    assert_eq!(g.score, 0);
    assert_eq!(g.advance(), Outcome::Ate);
    assert_eq!(g.snake.head().pos, (36, 16));
    assert_eq!(anchors(&g.snake), vec![(36, 16), (34, 16), (32, 16), (30, 16)]);
    assert_eq!(g.score, 1);
    assert!(!g.is_over);
    let used = g.place_food_from(&vec![(10, 10)]);
    assert_eq!(used, 1);
    assert_eq!(g.food.pos, (10, 10));
}

#[test]
fn straight_eat_with_random_food() {
    let mut g = Game::new(0);
    g.food = Cell::new(36, 16);
    assert_eq!(g.update_game_state(), Outcome::Moved);
    assert_eq!(g.food.pos, (36, 16));
    assert_eq!(g.update_game_state(), Outcome::Ate);
    assert_eq!(g.snake.head().pos, (36, 16));
    assert_eq!(g.snake.body.len(), 4);
    assert_eq!(g.score, 1);
    assert!(!g.is_over);
    assert!(in_interior(g.food.pos));
    assert_eq!(g.food.size, (2, 1));
    assert!(!g.snake.check_overlap_food(&g.food));
}

#[test]
fn wall_kill() {
    let mut g = game_of(&[(60, 16), (58, 16), (56, 16)], Direction::Right, (30, 30));
    assert_eq!(g.update_game_state(), Outcome::Over);
    assert!(g.is_over);
    assert_eq!(anchors(&g.snake), vec![(60, 16), (58, 16), (56, 16)]);
    assert_eq!(g.snake.dir, Direction::Right);
    assert_eq!(g.food.pos, (30, 30));
    assert_eq!(g.score, 0);
}

#[test]
fn wall_kill_on_every_side() {
    let mut g = game_of(&[(4, 16), (6, 16)], Direction::Left, (30, 30));
    assert_eq!(g.advance(), Outcome::Over);
    assert_eq!(anchors(&g.snake), vec![(4, 16), (6, 16)]);
    let mut g = game_of(&[(10, 2), (10, 3)], Direction::Up, (30, 30));
    assert_eq!(g.advance(), Outcome::Over);
    assert_eq!(anchors(&g.snake), vec![(10, 2), (10, 3)]);
    let mut g = game_of(&[(10, 31), (10, 30)], Direction::Down, (30, 30));
    assert_eq!(g.advance(), Outcome::Over);
    assert_eq!(anchors(&g.snake), vec![(10, 31), (10, 30)]);
    let mut g = game_of(&[(58, 16), (56, 16)], Direction::Right, (30, 30));
    assert_eq!(g.advance(), Outcome::Moved);
    assert_eq!(anchors(&g.snake), vec![(60, 16), (58, 16)]);
}

#[test]
fn self_bite() {
    let cells = [(10, 10), (12, 10), (12, 11), (10, 11), (8, 11)];
    let mut g = game_of(&cells, Direction::Left, (30, 30));
    g.process_event(&vec![Input::Down]);
    assert_eq!(g.snake.dir, Direction::Down);
    assert_eq!(g.update_game_state(), Outcome::Over);
    assert!(g.is_over);
    assert_eq!(anchors(&g.snake), cells.to_vec());
}

#[test]
fn head_may_not_take_the_place_the_tail_leaves() {
    let cells = [(10, 10), (12, 10), (12, 11), (10, 11)];
    let mut g = game_of(&cells, Direction::Left, (30, 30));
    g.process_event(&vec![Input::Down]);
    assert_eq!(g.advance(), Outcome::Over);
    assert!(g.is_over);
    assert_eq!(anchors(&g.snake), cells.to_vec());
}

#[test]
fn rejected_reverse() {
    let mut g = Game::new(0);
    g.process_event(&vec![Input::Left]);
    assert_eq!(g.snake.dir, Direction::Right);
    assert_eq!(g.update_game_state(), Outcome::Moved);
    assert_eq!(g.snake.dir, Direction::Right);
    assert_eq!(g.snake.head().pos, (34, 16));
    assert_eq!(anchors(&g.snake), vec![(34, 16), (32, 16), (30, 16)]);
}

#[test]
fn perpendicular_turn_is_taken() {
    let mut g = Game::new(0);
    g.process_event(&vec![Input::Up]);
    assert_eq!(g.snake.dir, Direction::Up);
    assert_eq!(g.advance(), Outcome::Moved);
    assert_eq!(g.snake.head().pos, (32, 15));
    g.process_event(&vec![Input::Down]);
    assert_eq!(g.snake.dir, Direction::Up);
    g.process_event(&vec![Input::Left]);
    assert_eq!(g.snake.dir, Direction::Left);
    g.process_event(&vec![Input::Left]);
    assert_eq!(g.snake.dir, Direction::Left);
}

#[test]
fn only_the_first_event_counts() {
    let mut g = Game::new(0);
    g.process_event(&vec![Input::Up, Input::Left, Input::Quit]);
    assert_eq!(g.snake.dir, Direction::Up);
    assert!(!g.is_over);
    g.process_event(&vec![Input::Other, Input::Left]);
    assert_eq!(g.snake.dir, Direction::Up);
    g.process_event(&vec![]);
    assert_eq!(g.snake.dir, Direction::Up);
    assert!(!g.is_over);
    assert_eq!(anchors(&g.snake), vec![(32, 16), (30, 16), (28, 16)]);
}

#[test]
fn quit() {
    let mut g = Game::new(0);
    assert_eq!(g.refresh(&vec![], 150), Some(Outcome::Moved));
    let before = anchors(&g.snake);
    let r = g.refresh(&vec![Input::Quit], 300);
    assert!(g.is_over);
    assert_eq!(r, Some(Outcome::Over));
    assert_eq!(anchors(&g.snake), before);
    let mut g = Game::new(0);
    g.process_event(&vec![Input::Quit]);
    assert!(g.is_over);
    assert_eq!(g.snake.dir, Direction::Right);
}

#[test]
fn over_is_terminal() {
    let mut g = Game::new(0);
    g.is_over = true;
    assert_eq!(g.advance(), Outcome::Over);
    assert_eq!(g.update_game_state(), Outcome::Over);
    assert!(g.is_over);
    assert_eq!(anchors(&g.snake), vec![(32, 16), (30, 16), (28, 16)]);
    assert_eq!(g.score, 0);
    assert_eq!(g.food.pos, (30, 30));
}

#[test]
fn length_changes_only_with_a_meal() {
    let mut g = Game::new(0);
    g.food = Cell::new(40, 16);
    let mut len = g.snake.body.len();
    let mut meals = 0;
    for _ in 0..10 {
        let o = g.advance();
        if o == Outcome::Ate {
            meals += 1;
            len += 1;
            g.place_food_from(&vec![(4, 2)]);
        }
        assert_eq!(g.snake.body.len(), len);
    }
    assert_eq!(meals, 1);
    assert_eq!(g.snake.body.len(), 4);
    assert_eq!(g.score, 1);
    assert_eq!(g.food.pos, (4, 2));
}

#[test]
fn refresh_ticks_when_the_step_has_passed() {
    let mut g = Game::new(1000);
    assert_eq!(g.refresh(&vec![], 1075), None);
    assert_eq!(g.time, 1000);
    assert_eq!(g.snake.head().pos, (32, 16));
    assert_eq!(g.refresh(&vec![Input::Up], 1149), None);
    assert_eq!(g.snake.dir, Direction::Up);
    assert_eq!(g.snake.head().pos, (32, 16));
    assert_eq!(g.refresh(&vec![], 1150), Some(Outcome::Moved));
    assert_eq!(g.time, 1150);
    assert_eq!(g.snake.head().pos, (32, 15));
    assert_eq!(g.refresh(&vec![], 1200), None);
    assert_eq!(g.time, 1150);
}

#[test]
fn refresh_skips_the_tick_when_the_clock_runs_backwards() {
    let mut g = Game::new(1000);
    assert_eq!(g.refresh(&vec![Input::Down], 10), None);
    assert_eq!(g.time, 1000);
    assert_eq!(g.snake.dir, Direction::Down);
    assert_eq!(g.snake.head().pos, (32, 16));
}

#[test]
fn refresh_applies_the_key_before_the_tick() {
    let mut g = Game::new(0);
    assert_eq!(g.refresh(&vec![Input::Down], 150), Some(Outcome::Moved));
    assert_eq!(g.snake.head().pos, (32, 17));
}

#[test]
fn try_place_food_takes_free_interior_positions_only() {
    let mut g = Game::new(0);
    assert!(g.try_place_food(10, 10));
    assert_eq!(g.food.pos, (10, 10));
    assert_eq!(g.food.size, (2, 1));
    for p in [(32u16, 16u16), (30, 16), (28, 16)] {
        assert!(!g.try_place_food(p.0, p.1));
    }
    for p in [(11u16, 10u16), (2, 10), (62, 10), (10, 1), (10, 32), (0, 0), (64, 40), (4, 0)] {
        assert!(!g.try_place_food(p.0, p.1));
    }
    assert_eq!(g.food.pos, (10, 10));
    assert!(g.try_place_food(4, 2));
    assert!(g.try_place_food(60, 31));
    assert!(g.try_place_food(4, 31));
    assert!(g.try_place_food(60, 2));
    assert_eq!(g.food.pos, (60, 2));
}

#[test]
fn place_food_from_stays_put_without_a_free_sample() {
    let mut g = Game::new(0);
    assert_eq!(g.place_food_from(&vec![]), 0);
    assert_eq!(g.food.pos, (30, 30));
    assert_eq!(g.place_food_from(&vec![(32, 16), (2, 2), (28, 16)]), 3);
    assert_eq!(g.food.pos, (30, 30));
    assert_eq!(g.place_food_from(&vec![(32, 16), (8, 8), (12, 12)]), 2);
    assert_eq!(g.food.pos, (8, 8));
}

#[test]
fn food_overlap_reroll() {
    let path = crowded_path();
    assert_eq!(path.len(), 869);
    assert_eq!(path[868], (4, 31));
    assert_eq!(path[867], (6, 31));
    let mut cells: Vec<(u16, u16)> = path[..868].to_vec();
    cells.reverse();
    let mut g = game_of(&cells, Direction::Left, (4, 31));
    assert_eq!(g.advance(), Outcome::Ate);
    assert_eq!(g.snake.body.len(), 869);
    assert_eq!(g.score, 1);
    assert!(!g.is_over);
    let used = g.place_food_from(&vec![(6, 6), (4, 4)]);
    assert_eq!(used, 2);
    assert_eq!(g.food.pos, (4, 4));
}

#[test]
fn random_food_finds_the_last_free_position() {
    let path = crowded_path();
    let mut cells: Vec<(u16, u16)> = path[..868].to_vec();
    cells.reverse();
    let mut g = game_of(&cells, Direction::Left, (4, 31));
    assert_eq!(g.update_game_state(), Outcome::Ate);
    assert!(!g.is_over);
    assert_eq!(g.food.pos, (4, 4));
    assert_eq!(g.food.size, (2, 1));
}

#[test]
fn filling_the_interior_ends_the_game() {
    let mut path = crowded_path();
    path.insert(0, (4, 4));
    assert_eq!(path.len(), 870);
    let mut cells: Vec<(u16, u16)> = path[..869].to_vec();
    cells.reverse();
    let mut g = game_of(&cells, Direction::Left, (4, 31));
    assert_eq!(g.update_game_state(), Outcome::Ate);
    assert_eq!(g.snake.body.len(), 870);
    assert_eq!(g.score, 1);
    assert!(g.is_over);
    assert_eq!(g.food.pos, (4, 31));
    assert_eq!(g.update_game_state(), Outcome::Over);
    assert_eq!(g.snake.body.len(), 870);
}

#[test]
fn place_food_reports_a_full_board() {
    let mut path = crowded_path();
    path.insert(0, (4, 4));
    let mut g = game_of(&path, Direction::Left, (10, 10));
    g.is_over = true;
    assert!(!g.place_food());
    assert_eq!(g.food.pos, (10, 10));
    assert_eq!(g.snake.body.len(), 870);
}

#[test]
fn place_food_avoids_the_snake() {
    let mut g = Game::new(0);
    for _ in 0..200 {
        assert!(g.place_food());
        assert!(in_interior(g.food.pos));
        assert_eq!(g.food.size, (2, 1));
        assert!(!g.snake.check_overlap_food(&g.food));
    }
    assert_eq!(anchors(&g.snake), vec![(32, 16), (30, 16), (28, 16)]);
    assert_eq!(g.score, 0);
}

#[test]
fn sampled_positions_lie_in_the_interior_and_vary() {
    let mut seen: Vec<(u16, u16)> = Vec::new();
    for _ in 0..2000 {
        let p = Game::sample_food_pos();
        assert!(in_interior(p));
        if !seen.contains(&p) {
            seen.push(p);
        }
    }
    assert!(seen.len() > 100);
    assert!(seen.iter().any(|p| p.0 != 4));
    assert!(seen.iter().any(|p| p.1 != 2));
}

#[test]
fn update_food_pos_moves_only_the_food() {
    let mut g = Game::new(7);
    let mut moved = false;
    for _ in 0..50 {
        g.update_food_pos();
        assert!(in_interior(g.food.pos));
        assert_eq!(g.food.size, (2, 1));
        if g.food.pos != (30, 30) {
            moved = true;
        }
    }
    assert!(moved);
    assert_eq!(anchors(&g.snake), vec![(32, 16), (30, 16), (28, 16)]);
    assert_eq!(g.score, 0);
    assert_eq!(g.time, 7);
    assert!(!g.is_over);
}

#[test]
fn draw_limit_is_positive() {
    assert!(FOOD_DRAWS >= 1);
}

#[test]
fn first_free_cell_scans_column_by_column() {
    let g = Game::new(0);
    assert_eq!(g.first_free_cell().map(|c| c.pos), Some((4, 2)));
    let g = game_of(&[(4, 4), (4, 3), (4, 2)], Direction::Down, (30, 30));
    assert_eq!(g.first_free_cell().map(|c| c.pos), Some((4, 5)));
    let mut column: Vec<(u16, u16)> = (2..32u16).map(|y| (4, y)).collect();
    column.reverse();
    let g = game_of(&column, Direction::Down, (30, 30));
    assert_eq!(g.first_free_cell().map(|c| (c.pos, c.size)), Some(((6, 2), (2, 1))));
    let g = game_of(&crowded_path(), Direction::Left, (30, 30));
    assert_eq!(g.first_free_cell().map(|c| c.pos), Some((4, 4)));
    let mut path = crowded_path();
    path.insert(0, (4, 4));
    let g = game_of(&path, Direction::Left, (30, 30));
    assert!(g.first_free_cell().is_none());
}

#[test]
fn anchors_stay_aligned_and_inside() {
    let mut g = Game::new(0);
    g.food = Cell::new(36, 16);
    let keys = [Input::Other, Input::Other, Input::Up, Input::Left, Input::Down, Input::Right];
    for round in 0..60usize {
        g.process_event(&vec![keys[round % keys.len()]]);
        g.update_game_state();
        for c in g.snake.body.iter() {
            assert!(in_interior(c.pos));
            assert_eq!(c.size, (2, 1));
        }
        assert!(in_interior(g.food.pos));
        for c in g.wall.cells.iter() {
            assert_eq!(c.pos.0 % 2, 0);
        }
    }
    assert!(g.score >= 1);
    assert_eq!(g.snake.body.len(), 3 + g.score as usize);
}
