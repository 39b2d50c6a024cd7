use snake_game::geometry::{Cell, Direction};
use snake_game::snake::Snake;
use snake_game::wall::Wall;
use std::collections::VecDeque;

fn anchors(s: &Snake) -> Vec<(u16, u16)> {
    s.body.iter().map(|c| c.pos).collect()
}

fn snake_of(cells: &[(u16, u16)], dir: Direction) -> Snake {
    let body: VecDeque<Cell> = cells.iter().map(|&(x, y)| Cell::new(x, y)).collect();
    Snake { body, dir }
}

#[test]
fn new_snake_trails_behind_its_head() {
    let s = Snake::new((32, 16), Direction::Right, 3);
    assert_eq!(anchors(&s), vec![(32, 16), (30, 16), (28, 16)]);
    assert_eq!(s.dir, Direction::Right);
    let s = Snake::new((32, 16), Direction::Left, 3);
    assert_eq!(anchors(&s), vec![(32, 16), (34, 16), (36, 16)]);
    let s = Snake::new((32, 16), Direction::Up, 4);
    assert_eq!(anchors(&s), vec![(32, 16), (32, 17), (32, 18), (32, 19)]);
    let s = Snake::new((32, 16), Direction::Down, 2);
    assert_eq!(anchors(&s), vec![(32, 16), (32, 15)]);
}

#[test]
fn new_snake_of_one_cell_is_its_head() {
    let s = Snake::new((4, 2), Direction::Left, 1);
    assert_eq!(anchors(&s), vec![(4, 2)]);
    assert_eq!(s.head().pos, (4, 2));
}

#[test]
fn new_snake_cells_have_uniform_size() {
    let s = Snake::new((32, 16), Direction::Right, 3);
    for c in s.body.iter() {
        assert_eq!(c.size, (2, 1));
    }
}

#[test]
fn head_is_the_first_cell() {
    let s = snake_of(&[(10, 10), (12, 10), (12, 11)], Direction::Left);
    assert_eq!(s.head().pos, (10, 10));
}

#[test]
fn grow_adds_a_head_and_keeps_the_tail() {
    let mut s = Snake::new((32, 16), Direction::Right, 3);
    s.grow_body();
    assert_eq!(anchors(&s), vec![(34, 16), (32, 16), (30, 16), (28, 16)]);
    assert_eq!(s.dir, Direction::Right);
}

#[test]
fn move_adds_a_head_and_drops_the_tail() {
    let mut s = Snake::new((32, 16), Direction::Right, 3);
    s.move_body();
    assert_eq!(anchors(&s), vec![(34, 16), (32, 16), (30, 16)]);
    s.dir = Direction::Up;
    s.move_body();
    assert_eq!(anchors(&s), vec![(34, 15), (34, 16), (32, 16)]);
    assert_eq!(s.dir, Direction::Up);
}

#[test]
fn move_of_a_single_cell_moves_it() {
    let mut s = Snake::new((10, 10), Direction::Down, 1);
    s.move_body();
    assert_eq!(anchors(&s), vec![(10, 11)]);
}

#[test]
fn consecutive_cells_stay_one_step_apart() {
    let mut s = Snake::new((32, 16), Direction::Right, 3);
    let turns = [Direction::Up, Direction::Up, Direction::Left, Direction::Down];
    for d in turns {
        s.dir = d;
        s.grow_body();
        s.move_body();
    }
    let cells = anchors(&s);
    for pair in cells.windows(2) {
        let dx = (pair[0].0 as i32 - pair[1].0 as i32).abs();
        let dy = (pair[0].1 as i32 - pair[1].1 as i32).abs();
        assert!((dx == 2 && dy == 0) || (dx == 0 && dy == 1));
    }
}

#[test]
fn bite_looks_only_behind_the_head() {
    let straight = Snake::new((32, 16), Direction::Right, 3);
    assert!(!straight.check_bite_body());
    let single = Snake::new((32, 16), Direction::Right, 1);
    assert!(!single.check_bite_body());
    let bitten = snake_of(&[(10, 10), (12, 10), (12, 11), (10, 11), (10, 10)], Direction::Up);
    assert!(bitten.check_bite_body());
}

#[test]
fn eating_is_head_on_food() {
    let s = Snake::new((32, 16), Direction::Right, 3);
    assert!(s.check_bite_food(&Cell::new(32, 16)));
    assert!(!s.check_bite_food(&Cell::new(30, 16)));
    assert!(!s.check_bite_food(&Cell::new(34, 16)));
}

#[test]
fn overlap_looks_at_every_cell() {
    let s = Snake::new((32, 16), Direction::Right, 3);
    assert!(s.check_overlap_food(&Cell::new(32, 16)));
    assert!(s.check_overlap_food(&Cell::new(30, 16)));
    assert!(s.check_overlap_food(&Cell::new(28, 16)));
    assert!(!s.check_overlap_food(&Cell::new(26, 16)));
    assert!(!s.check_overlap_food(&Cell::new(32, 17)));
}

#[test]
fn occupies_from_skips_the_cells_before_the_index() {
    let s = Snake::new((32, 16), Direction::Right, 3);
    assert!(s.occupies_from(0, &Cell::new(32, 16)));
    assert!(!s.occupies_from(1, &Cell::new(32, 16)));
    assert!(s.occupies_from(2, &Cell::new(28, 16)));
    assert!(!s.occupies_from(3, &Cell::new(28, 16)));
    assert!(!s.occupies_from(7, &Cell::new(28, 16)));
}

#[test]
fn wall_collision_is_head_on_wall() {
    let wall = Wall::new();
    assert!(snake_of(&[(62, 16), (60, 16)], Direction::Right).check_collide_wall(&wall));
    assert!(snake_of(&[(2, 16), (4, 16)], Direction::Left).check_collide_wall(&wall));
    assert!(snake_of(&[(10, 1), (10, 2)], Direction::Up).check_collide_wall(&wall));
    assert!(snake_of(&[(10, 32), (10, 31)], Direction::Down).check_collide_wall(&wall));
    assert!(!snake_of(&[(60, 16), (62, 16)], Direction::Left).check_collide_wall(&wall));
    assert!(!snake_of(&[(4, 2), (6, 2)], Direction::Left).check_collide_wall(&wall));
}
