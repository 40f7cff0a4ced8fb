use buckowump::ami::{
    AmiState, AmiStep, ANIMATIONS, CATCH, CLIMB, GAMEOVER, JUMP, LAND, LOOK, REVEAL, WAIT,
};

#[test]
fn starts_hidden_and_cute() {
    let mut ami = AmiState::new();
    assert!(ami.is_cute());
    assert!(!ami.visible());
    assert!(ami.appear());
    assert!(ami.visible());
    assert!(!ami.appear());
    ami.disappear();
    assert!(!ami.visible());
    assert!(ami.is_cute());
}

#[test]
fn reveal_then_wait() {
    let mut ami = AmiState::new();
    assert_eq!(ami.update(REVEAL, false, false, false), AmiStep::Animate);
    assert_eq!(ami.update(REVEAL, true, false, false), AmiStep::Switch(WAIT));
    assert_eq!(ami.update(WAIT, true, true, true), AmiStep::Animate);
    assert_eq!(ami.update(GAMEOVER, true, true, true), AmiStep::Animate);
}

#[test]
fn jump_and_land_with_a_catch() {
    let mut ami = AmiState::new();
    ami.jump(true);
    ami.set_got_bucko(true);
    assert!(ami.face_left());
    assert_eq!(ami.update(JUMP, false, true, false), AmiStep::Follow);
    assert_eq!(ami.update(JUMP, true, false, false), AmiStep::Land);
    assert_eq!(ami.update(LAND, false, false, false), AmiStep::Animate);
    assert!(ami.got_bucko());
    assert_eq!(ami.update(LAND, true, false, false), AmiStep::Switch(CATCH));
    assert!(!ami.got_bucko());
    assert!(!ami.face_left());
    assert_eq!(ami.update(CATCH, true, false, false), AmiStep::Switch(LOOK));
    assert_eq!(ami.update(LOOK, true, false, false), AmiStep::StartClimb);
}

#[test]
fn land_without_a_catch_looks_around() {
    let mut ami = AmiState::new();
    ami.jump(false);
    assert_eq!(ami.update(LAND, true, false, false), AmiStep::Switch(LOOK));
}

#[test]
fn climbing() {
    let mut ami = AmiState::new();
    assert_eq!(ami.update(CLIMB, false, true, true), AmiStep::ExtendSilk);
    assert_eq!(ami.update(CLIMB, false, true, false), AmiStep::Ascend);
    assert_eq!(ami.update(CLIMB, true, false, false), AmiStep::Respawn);
}

#[test]
fn every_step_stays_in_the_sheet() {
    for animation in 0..ANIMATIONS {
        for bits in 0..16u8 {
            let mut ami = AmiState::new();
            ami.set_got_bucko(bits & 1 != 0);
            let step = ami.update(animation, bits & 2 != 0, bits & 4 != 0, bits & 8 != 0);
            let next = match step {
                AmiStep::Switch(a) => a,
                AmiStep::Land => LAND,
                AmiStep::StartClimb => CLIMB,
                AmiStep::Respawn => REVEAL,
                _ => animation,
            };
            assert!(next < ANIMATIONS);
            assert!(ami.is_cute());
        }
    }
}
