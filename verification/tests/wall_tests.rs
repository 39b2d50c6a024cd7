use snake_game::geometry::Cell;
use snake_game::wall::Wall;

#[test]
fn wall_is_laid_down_in_four_runs() {
    let wall = Wall::new();
    let cells: Vec<(u16, u16)> = wall.cells.iter().map(|c| c.pos).collect();
    let mut expected: Vec<(u16, u16)> = Vec::new();
    for i in 1..32u16 {
        expected.push((i * 2, 1));
    }
    for i in 2..32u16 {
        expected.push((2, i));
    }
    for i in 2..32u16 {
        expected.push((62, i));
    }
    for i in 1..32u16 {
        expected.push((i * 2, 32));
    }
    assert_eq!(cells.len(), 122);
    assert_eq!(cells, expected);
}

#[test]
fn wall_cells_are_aligned_and_uniform() {
    let wall = Wall::new();
    for c in wall.cells.iter() {
        assert_eq!(c.pos.0 % 2, 0);
        assert_eq!(c.size, (2, 1));
    }
}

#[test]
fn wall_holds_exactly_the_border() {
    let wall = Wall::new();
    for x in 0..70u16 {
        for y in 0..40u16 {
            let on_border = x % 2 == 0
                && (2..=62).contains(&x)
                && (1..=32).contains(&y)
                && (y == 1 || y == 32 || x == 2 || x == 62);
            assert_eq!(wall.contains(&Cell::new(x, y)), on_border);
        }
    }
}

#[test]
fn wall_corners_belong_to_it() {
    let wall = Wall::new();
    assert!(wall.contains(&Cell::new(2, 1)));
    assert!(wall.contains(&Cell::new(62, 1)));
    assert!(wall.contains(&Cell::new(2, 32)));
    assert!(wall.contains(&Cell::new(62, 32)));
    assert!(!wall.contains(&Cell::new(4, 2)));
    assert!(!wall.contains(&Cell::new(60, 31)));
    assert!(!wall.contains(&Cell::new(0, 1)));
    assert!(!wall.contains(&Cell::new(2, 0)));
}
