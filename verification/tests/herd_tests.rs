use buckowump::herd::{Herd, LIMIT};

#[test]
fn add_up_to_the_limit() {
    let mut h: Herd<(i32, i32)> = Herd::new();
    assert_eq!(h.len(), 0);
    for i in 0..LIMIT as i32 {
        assert!(!h.is_full());
        h.push((i, i), (1, -1));
    }
    assert!(h.is_full());
    assert_eq!(h.len(), 8);
    assert_eq!(h.positions()[3], (3, 3));
    assert_eq!(h.directions()[3], (1, -1));
}

#[test]
fn remove_keeps_one_and_pairs() {
    let mut h: Herd<i32> = Herd::new();
    for i in 0..5 {
        h.push(i, 10 * i);
    }
    while h.len() > 1 {
        let before = h.len();
        h.remove();
        assert_eq!(h.len(), before - 1);
        for k in 0..h.len() {
            assert_eq!(h.directions()[k], 10 * h.positions()[k]);
        }
    }
    h.remove();
    assert_eq!(h.len(), 1);
}

#[test]
fn set_position_and_direction() {
    let mut h: Herd<i32> = Herd::new();
    h.push(1, 2);
    h.push(3, 4);
    h.set_position(1, 30);
    h.set_direction(0, -2);
    assert_eq!(h.positions(), &vec![1, 30]);
    assert_eq!(h.directions(), &vec![-2, 4]);
}

#[test]
fn remove_at_moves_the_last_into_place() {
    let mut h: Herd<i32> = Herd::new();
    for i in 1..=4 {
        h.push(i, -i);
    }
    h.remove_at(1);
    assert_eq!(h.positions(), &vec![1, 4, 3]);
    assert_eq!(h.directions(), &vec![-1, -4, -3]);
    h.remove_at(2);
    assert_eq!(h.positions(), &vec![1, 4]);
}

#[test]
fn add_stops_at_the_limit() {
    let mut h: Herd<u8> = Herd::new();
    for i in 0..20u8 {
        h.add(i, i);
    }
    assert_eq!(h.len(), LIMIT as usize);
    assert_eq!(h.positions(), &(0..LIMIT).collect::<Vec<u8>>());
}
