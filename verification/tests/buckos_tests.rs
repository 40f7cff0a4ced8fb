use buckowump::buckos::{place_bucko, Buckos, Cell};

fn distinct(cells: &[Cell]) -> bool {
    for i in 0..cells.len() {
        for j in i + 1..cells.len() {
            if cells[i] == cells[j] {
                return false;
            }
        }
    }
    true
}

#[test]
fn new_hides_distinct_buckos_on_the_grid() {
    for seed in 0..20u64 {
        let b = Buckos::new(8, 10, seed);
        assert_eq!(b.positions().len(), 8);
        assert!(distinct(b.positions()));
        assert!(b.positions().iter().all(|c| c.x < 10 && c.y < 10));
        assert_eq!(b.captured(), &vec![false; 8]);
    }
}

#[test]
fn new_fills_a_full_grid() {
    let b = Buckos::new(9, 3, 7);
    assert_eq!(b.positions().len(), 9);
    assert!(distinct(b.positions()));
    assert!(b.positions().iter().all(|c| c.x < 3 && c.y < 3));
}

#[test]
fn grid_side_is_taken_as_a_byte() {
    // 258 as a byte is 2.
    let b = Buckos::new(4, 258, 3);
    assert!(distinct(b.positions()));
    assert!(b.positions().iter().all(|c| c.x < 2 && c.y < 2));
}

#[test]
fn no_buckos() {
    let b = Buckos::new(0, 0, 1);
    assert!(b.positions().is_empty());
    assert!(b.all_captured());
    assert!(Buckos::empty().positions().is_empty());
}

#[test]
fn guess_reports_and_catches() {
    // Every cell of a 5 by 5 grid hides a bucko.
    let mut b = Buckos::new(25, 5, 11);
    let target = Cell { x: 0, y: 0 };
    let before = b.positions().clone();
    let out = b.distances(target);
    assert_eq!(out.len(), 25);
    assert_eq!(b.positions(), &before);
    for (i, pos) in before.iter().enumerate() {
        if *pos == target {
            assert_eq!(out[i], Some("GOT".to_string()));
            assert!(b.captured()[i]);
        } else {
            let expected = format!(
                "{:.1}",
                (((pos.x as f32).powi(2) + (pos.y as f32).powi(2)) as f32).sqrt()
            );
            assert_eq!(out[i], Some(expected));
            assert!(!b.captured()[i]);
        }
        if *pos == (Cell { x: 3, y: 4 }) {
            assert_eq!(out[i], Some("5.0".to_string()));
        }
        if *pos == (Cell { x: 1, y: 1 }) {
            assert_eq!(out[i], Some("1.4".to_string()));
        }
    }
    // Guessing the same cell again: that bucko shows nothing, no new catch.
    let again = b.distances(target);
    let caught_index = before.iter().position(|p| *p == target).unwrap();
    assert_eq!(again[caught_index], None);
    assert!(!again.iter().any(|d| d.as_deref() == Some("GOT")));
    assert_eq!(b.captured().iter().filter(|c| **c).count(), 1);
}

#[test]
fn all_captured_after_every_cell() {
    let mut b = Buckos::new(4, 2, 5);
    assert!(!b.all_captured());
    for x in 0..2 {
        for y in 0..2 {
            b.distances(Cell { x, y });
        }
    }
    assert!(b.all_captured());
    let out = b.distances(Cell { x: 0, y: 0 });
    assert_eq!(out, vec![None, None, None, None]);
}

#[test]
fn miss_far_away() {
    let mut b = Buckos::new(1, 1, 2);
    assert_eq!(b.positions(), &vec![Cell { x: 0, y: 0 }]);
    let out = b.distances(Cell { x: 9, y: 9 });
    assert_eq!(out, vec![Some("12.7".to_string())]);
    assert!(!b.all_captured());
}

#[test]
fn a_taken_spot_is_passed_over() {
    let c = |x: u16, y: u16| Cell { x, y };
    let mut positions = Vec::new();
    assert!(place_bucko(&mut positions, c(2, 3)));
    assert!(place_bucko(&mut positions, c(0, 0)));
    assert!(!place_bucko(&mut positions, c(2, 3)));
    assert!(place_bucko(&mut positions, c(3, 2)));
    assert_eq!(positions, vec![c(2, 3), c(0, 0), c(3, 2)]);
}

#[test]
fn one_bucko_on_an_empty_grid() {
    let b = Buckos::new(1, 0, 4);
    assert_eq!(b.positions(), &vec![Cell { x: 0, y: 0 }]);
    // 256 as a byte is 0.
    let b = Buckos::new(1, 256, 9);
    assert_eq!(b.positions(), &vec![Cell { x: 0, y: 0 }]);
}

#[test]
fn same_cells_as_redrawing_with_the_same_seed() {
    for seed in [1u64, 42, 1234567] {
        let amount: u8 = 8;
        let grid_size: u16 = 10;
        macroquad::rand::srand(seed);
        let mut expected: Vec<Cell> = Vec::new();
        for _ in 0..amount {
            loop {
                let x = macroquad::rand::gen_range::<u8>(0, grid_size as u8) as u16;
                let y = macroquad::rand::gen_range::<u8>(0, grid_size as u8) as u16;
                let spot = Cell { x, y };
                if !expected.contains(&spot) {
                    expected.push(spot);
                    break;
                }
            }
        }
        let b = Buckos::new(amount, grid_size, seed);
        assert_eq!(b.positions(), &expected, "seed {}", seed);
    }
}
