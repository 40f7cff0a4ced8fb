use buckowump::introtext::{layout_lines, wrap_words, IntroText, FRAMES_PER_CHAR};

fn intro_by_format(bucko_amount: u8, grid_size: u16) -> String {
    format!(
        "Creative Computing Buckopia, New Jrsey\n\
        The object of this game is to find the {} bucko{} hidden on a {} by {} \
        grid. \nYou get 10 tries. After each try, I will \nkill \nyou.",
        bucko_amount,
        if bucko_amount > 1 { "s" } else { "" },
        grid_size,
        grid_size,
    )
}

fn strings(v: &[&str]) -> Vec<String> {
    v.iter().map(|s| s.to_string()).collect()
}

#[test]
fn init_writes_the_introduction() {
    let mut intro = IntroText::default();
    intro.init(4, 10);
    assert!(intro.tick_within_text());
    // Reveal everything and look at the lines.
    let mut rebuilt = 0;
    for _ in 0..10_000 {
        if intro.tick() {
            rebuilt += 1;
        }
    }
    let full = intro_by_format(4, 10);
    assert_eq!(rebuilt, full.len());
    let expected: Vec<String> = full.lines().map(|l| l.to_string()).collect();
    assert_eq!(intro.shown_lines(), expected);
    assert_eq!(
        expected[1],
        "The object of this game is to find the 4 buckos hidden on a 10 by 10 grid. "
    );
}

#[test]
fn singular_bucko() {
    let mut intro = IntroText::default();
    intro.init(1, 7);
    for _ in 0..10_000 {
        intro.tick();
    }
    assert_eq!(intro.shown_lines().join("\n"), intro_by_format(1, 7));
    assert!(intro.shown_lines()[1].contains("find the 1 bucko hidden on a 7 by 7 grid."));
}

#[test]
fn one_character_every_five_frames() {
    let mut intro = IntroText::default();
    intro.init(3, 10);
    let cycle = FRAMES_PER_CHAR as usize + 1;
    assert_eq!(cycle, 5);
    for k in 1..=3 {
        for f in 1..cycle {
            assert!(!intro.tick(), "frame {} of char {}", f, k);
        }
        assert!(intro.tick());
    }
    assert_eq!(intro.shown_lines(), strings(&["Cre"]));
}

#[test]
fn empty_text_never_reveals() {
    let mut intro = IntroText::default();
    for _ in 0..100 {
        assert!(!intro.tick());
    }
    assert!(intro.shown_lines().is_empty());
    assert!(intro.cache().is_empty());
}

#[test]
fn rebuild_lays_out_the_revealed_lines() {
    let mut intro = IntroText::default();
    intro.init(2, 10);
    // Reveal 45 characters: one full line and the start of the next.
    let mut shown = 0;
    while shown < 45 {
        if intro.tick() {
            shown += 1;
        }
    }
    let lines = intro.shown_lines();
    assert_eq!(lines, strings(&["Creative Computing Buckopia, New Jrsey", "The ob"]));
    intro.rebuild(&vec![true, true], &vec![vec![], vec![]]);
    assert_eq!(intro.cache(), &lines);
    // The first line does not fit: wrap it before "Buckopia, ".
    intro.rebuild(&vec![false, true], &vec![vec![false, false, true, false, false], vec![]]);
    assert_eq!(
        intro.cache(),
        &strings(&["Creative Computing ", "Buckopia, New Jrsey", "The ob"])
    );
}

#[test]
fn reset_starts_over() {
    let mut intro = IntroText::default();
    intro.init(4, 10);
    for _ in 0..50 {
        intro.tick();
    }
    intro.rebuild(&vec![true], &vec![vec![]]);
    assert!(!intro.cache().is_empty());
    intro.reset();
    assert!(intro.cache().is_empty());
    assert!(intro.shown_lines().is_empty());
}

#[test]
fn tick_out_of_range_is_reported() {
    let mut intro = IntroText::default();
    intro.init(2, 10000);
    let len = intro_by_format(2, 10000).len();
    // Reveal all but one character, then wait until the last one is due.
    for _ in 0..(len - 1) * 5 + 4 {
        intro.tick();
        assert!(intro.tick_within_text());
    }
    // A shorter text now leaves the due character past its end.
    intro.init(2, 1);
    assert!(intro_by_format(2, 1).len() < len - 1);
    assert!(!intro.tick_within_text());
    intro.reset();
    assert!(intro.tick_within_text());
}

#[test]
fn wrapping_words() {
    let words = strings(&["Creative ", "Computing ", "Buckopia, ", "New ", "Jrsey"]);
    assert_eq!(
        wrap_words(&words, &vec![false, false, false, false, false]),
        strings(&["Creative Computing Buckopia, New Jrsey"])
    );
    assert_eq!(
        wrap_words(&words, &vec![false, true, false, true, false]),
        strings(&["Creative ", "Computing Buckopia, ", "New Jrsey"])
    );
    // A break at the first word closes an empty line.
    assert_eq!(
        wrap_words(&words[..1].to_vec(), &vec![true]),
        strings(&["", "Creative "])
    );
    assert_eq!(wrap_words(&vec![], &vec![]), strings(&[""]));
}

#[test]
fn layout_mixes_whole_and_wrapped_lines() {
    let lines = strings(&["kill ", "You get 10 tries."]);
    let out = layout_lines(&lines, &vec![true, false], &vec![vec![], vec![false, false, true, false]]);
    assert_eq!(out, strings(&["kill ", "You get ", "10 tries."]));
}

#[test]
fn fully_revealed_text_stays_still() {
    let mut intro = IntroText::default();
    intro.init(8, 10);
    let len = intro_by_format(8, 10).len();
    for _ in 0..len * 5 {
        intro.tick();
    }
    let shown = intro.shown_lines();
    assert_eq!(shown.join("\n"), intro_by_format(8, 10));
    for _ in 0..1000 {
        assert!(!intro.tick());
    }
    assert_eq!(intro.shown_lines(), shown);
}
