use buckowump::buckos::Cell;
use buckowump::game::{turn_text, Game, GameState, Play, GRID_SIZE, MAX_BUCKOS, TURNS};

#[test]
fn menu_amount_is_clamped() {
    let mut g = Game::new();
    assert_eq!(g.state(), GameState::MainMenu);
    assert_eq!(g.bucko_amount(), 4);
    g.adjust_amount(true, false);
    assert_eq!(g.bucko_amount(), 3);
    for _ in 0..10 {
        g.adjust_amount(true, false);
    }
    assert_eq!(g.bucko_amount(), 1);
    for _ in 0..20 {
        g.adjust_amount(false, true);
    }
    assert_eq!(g.bucko_amount(), MAX_BUCKOS);
    g.adjust_amount(true, true);
    assert_eq!(g.bucko_amount(), 8);
}

#[test]
fn entry_texts() {
    let mut g = Game::new();
    assert_eq!(g.entry_text(), "Click/Press Enter to begin!");
    g.start(42);
    assert_eq!(g.state(), GameState::Playing);
    assert_eq!(g.entry_text(), "Turn 0: Select a cell");
    g.select(Cell { x: 3, y: 7 });
    assert_eq!(g.entry_text(), "Turn 0: 3,7");
}

#[test]
fn a_guess_is_logged() {
    let mut g = Game::new();
    g.start(1);
    assert_eq!(g.buckos().positions().len(), 4);
    assert!(g.buckos().positions().iter().all(|c| c.x < GRID_SIZE && c.y < GRID_SIZE));
    // Enter without a selection does nothing.
    assert_eq!(g.play(true, true), Play::Wait);
    let target = g.buckos().positions()[2];
    g.select(target);
    // Ami not waiting: nothing yet.
    assert_eq!(g.play(false, true), Play::Wait);
    assert_eq!(g.play(true, false), Play::Wait);
    assert_eq!(g.play(true, true), Play::Guess { cell: target, got: true });
    assert_eq!(g.selected_cell(), None);
    assert_eq!(g.log().len(), 1);
    assert_eq!(g.log()[0].target_cell, target);
    assert_eq!(g.log()[0].distances[2], Some("GOT".to_string()));
    assert!(g.buckos().captured()[2]);
    assert_eq!(g.entry_text(), "Turn 1: Select a cell");
    assert_eq!(g.rows_shown(true), 0);
    assert_eq!(g.rows_shown(false), 1);
    assert_eq!(turn_text(&g.log()[0]), format!("{},{} | ", target.x, target.y));
}

#[test]
fn ten_misses_end_the_round() {
    let mut g = Game::new();
    g.adjust_amount(true, false);
    g.adjust_amount(true, false);
    g.adjust_amount(true, false);
    assert_eq!(g.bucko_amount(), 1);
    g.start(9);
    let hide = g.buckos().positions()[0];
    let miss = Cell { x: (hide.x + 1) % 10, y: hide.y };
    for turn in 0..TURNS {
        assert_eq!(g.play(true, false), Play::Wait, "turn {}", turn);
        g.select(miss);
        assert_eq!(g.play(true, true), Play::Guess { cell: miss, got: false });
    }
    assert_eq!(g.log().len(), 10);
    // Ami still jumping: not over yet.
    g.select(miss);
    assert_eq!(g.play(false, true), Play::Wait);
    assert_eq!(g.play(true, true), Play::Over { won: false });
    assert_eq!(g.state(), GameState::GameOver);
    assert_eq!(g.selected_cell(), None);
    assert_eq!(g.log().len(), 10);
    assert_eq!(g.final_text(), "Sorry, that's 10 tries.");
    assert_eq!(g.entry_text(), "That was pog! Let's play again...");
    g.restart();
    assert_eq!(g.state(), GameState::MainMenu);
    assert!(g.log().is_empty());
}

#[test]
fn catching_all_wins() {
    let mut g = Game::new();
    g.start(5);
    let cells = g.buckos().positions().clone();
    for (i, c) in cells.iter().enumerate() {
        g.select(*c);
        assert_eq!(g.play(true, true), Play::Guess { cell: *c, got: true }, "bucko {}", i);
    }
    assert_eq!(g.play(true, true), Play::Over { won: true });
    assert_eq!(g.final_text(), "You got them all in 4 turns!");
}

#[test]
fn repeated_guess_catches_nothing() {
    let mut g = Game::new();
    g.start(3);
    let c = g.buckos().positions()[0];
    g.select(c);
    assert_eq!(g.play(true, true), Play::Guess { cell: c, got: true });
    g.select(c);
    assert_eq!(g.play(true, true), Play::Guess { cell: c, got: false });
    assert_eq!(g.log()[1].distances[0], None);
}
