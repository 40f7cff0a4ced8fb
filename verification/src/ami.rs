//! Ami, the spider who jumps at the guessed cell: the decisions of her
//! animation, frame by frame.

use vstd::prelude::*;

verus! {

/// Points on the path of one jump.
pub const JUMP_STEPS: u16 = 30;

/// Animation rows of Ami's sprite sheet.
pub const REVEAL: usize = 0;
pub const WAIT: usize = 1;
pub const JUMP: usize = 2;
pub const LAND: usize = 3;
pub const CATCH: usize = 4;
pub const LOOK: usize = 5;
pub const CLIMB: usize = 6;
pub const GAMEOVER: usize = 7;

/// Number of animation rows.
pub const ANIMATIONS: usize = 8;

/// What Ami does in one frame.
#[derive(Clone, Copy, PartialEq, Eq, Structural, Debug)]
pub enum AmiStep {
    /// Play the current animation on.
    Animate,
    /// Switch to an animation, from its first frame.
    Switch(usize),
    /// Move to the next point of the jump path.
    Follow,
    /// The jump path is done: stand upright and switch to landing.
    Land,
    /// Switch to climbing, from its first frame, with the climbing sound.
    StartClimb,
    /// Spin the silk one more step up.
    ExtendSilk,
    /// Climb to the next point of the silk.
    Ascend,
    /// Back at the top: return to the start position and reveal again.
    Respawn,
}

/// What Ami does in a frame of `animation`: `last_frame` tells whether the
/// animation shows its last frame, `got_bucko` whether the jump caught a
/// bucko, `path_ahead` whether points are left on the path, `silk_above`
/// whether the silk's end is still below the top of the screen.
pub open spec fn ami_step(
    animation: usize,
    last_frame: bool,
    got_bucko: bool,
    path_ahead: bool,
    silk_above: bool,
) -> AmiStep {
    if animation == REVEAL && last_frame {
        AmiStep::Switch(WAIT)
    } else if animation == JUMP {
        if path_ahead {
            AmiStep::Follow
        } else {
            AmiStep::Land
        }
    } else if animation == LAND && last_frame {
        AmiStep::Switch(if got_bucko { CATCH } else { LOOK })
    } else if animation == CATCH && last_frame {
        AmiStep::Switch(LOOK)
    } else if animation == LOOK && last_frame {
        AmiStep::StartClimb
    } else if animation == CLIMB {
        if silk_above {
            AmiStep::ExtendSilk
        } else if path_ahead {
            AmiStep::Ascend
        } else {
            AmiStep::Respawn
        }
    } else {
        AmiStep::Animate
    }
}

/// The animations that play to their last frame before Ami moves on.
pub open spec fn is_finite(animation: usize) -> bool {
    animation == REVEAL || animation == LAND || animation == CATCH || animation == LOOK
}

/// The animation that Ami shows after `step` from `animation`.
pub open spec fn next_animation(animation: usize, step: AmiStep) -> usize {
    match step {
        AmiStep::Switch(a) => a,
        AmiStep::Land => LAND,
        AmiStep::StartClimb => CLIMB,
        AmiStep::Respawn => REVEAL,
        _ => animation,
    }
}

/// Ami's flags.
pub struct AmiState {
    cute: bool,
    got_bucko: bool,
    face_left: bool,
    visible: bool,
}

impl AmiState {
    #[verifier::type_invariant]
    spec fn inv(self) -> bool {
        self.cute
    }

    /// Whether the last jump caught a bucko.
    pub closed spec fn got_bucko_spec(&self) -> bool {
        self.got_bucko
    }

    /// Whether Ami faces left.
    pub closed spec fn face_left_spec(&self) -> bool {
        self.face_left
    }

    /// Whether Ami is on screen.
    pub closed spec fn visible_spec(&self) -> bool {
        self.visible
    }

    /// Ami as she starts: hidden, facing right, with nothing caught.
    pub fn new() -> (ami: Self)
        ensures
            !ami.got_bucko_spec(),
            !ami.face_left_spec(),
            !ami.visible_spec(),
    {
        AmiState { cute: true, got_bucko: false, face_left: false, visible: false }
    }

    /// Whether Ami is cute: always.
    pub fn is_cute(&self) -> (cute: bool)
        ensures
            cute,
    {
        proof {
            use_type_invariant(self);
        }
        self.cute
    }

    /// One frame of Ami's animation (see `ami_step`). Landing clears the
    /// caught bucko and turns Ami to face right.
    pub fn update(&mut self, animation: usize, last_frame: bool, path_ahead: bool, silk_above: bool) -> (step: AmiStep)
        ensures
            step == ami_step(animation, last_frame, old(self).got_bucko_spec(), path_ahead, silk_above),
            is_finite(animation) && !last_frame ==> step == AmiStep::Animate,
            animation == REVEAL && last_frame ==> step == AmiStep::Switch(WAIT),
            animation == LAND && last_frame && old(self).got_bucko_spec() ==> step
                == AmiStep::Switch(CATCH),
            animation == LAND && last_frame && !old(self).got_bucko_spec() ==> step
                == AmiStep::Switch(LOOK),
            animation == CATCH && last_frame ==> step == AmiStep::Switch(LOOK),
            animation == LOOK && last_frame ==> step == AmiStep::StartClimb,
            animation == JUMP && path_ahead ==> step == AmiStep::Follow,
            animation == JUMP && !path_ahead ==> step == AmiStep::Land,
            animation == CLIMB && silk_above ==> step == AmiStep::ExtendSilk,
            animation == CLIMB && !silk_above && path_ahead ==> step == AmiStep::Ascend,
            animation == CLIMB && !silk_above && !path_ahead ==> step == AmiStep::Respawn,
            !is_finite(animation) && animation != JUMP && animation != CLIMB ==> step
                == AmiStep::Animate,
            final(self).visible_spec() == old(self).visible_spec(),
            if animation == LAND && last_frame {
                &&& !final(self).got_bucko_spec()
                &&& !final(self).face_left_spec()
            } else {
                &&& final(self).got_bucko_spec() == old(self).got_bucko_spec()
                &&& final(self).face_left_spec() == old(self).face_left_spec()
            },
    {
        proof {
            use_type_invariant(&*self);
        }
        if animation == REVEAL && last_frame {
            AmiStep::Switch(WAIT)
        } else if animation == JUMP {
            if path_ahead {
                AmiStep::Follow
            } else {
                AmiStep::Land
            }
        } else if animation == LAND && last_frame {
            let next = if self.got_bucko {
                CATCH
            } else {
                LOOK
            };
            self.got_bucko = false;
            self.face_left = false;
            AmiStep::Switch(next)
        } else if animation == CATCH && last_frame {
            AmiStep::Switch(LOOK)
        } else if animation == LOOK && last_frame {
            AmiStep::StartClimb
        } else if animation == CLIMB {
            if silk_above {
                AmiStep::ExtendSilk
            } else if path_ahead {
                AmiStep::Ascend
            } else {
                AmiStep::Respawn
            }
        } else {
            AmiStep::Animate
        }
    }

    /// Starts a jump: Ami faces left when the target lies left of her.
    pub fn jump(&mut self, leftward: bool)
        ensures
            final(self).face_left_spec() == leftward,
            final(self).got_bucko_spec() == old(self).got_bucko_spec(),
            final(self).visible_spec() == old(self).visible_spec(),
    {
        proof {
            use_type_invariant(&*self);
        }
        self.face_left = leftward;
    }

    /// Records whether the jump under way caught a bucko.
    pub fn set_got_bucko(&mut self, got: bool)
        ensures
            final(self).got_bucko_spec() == got,
            final(self).face_left_spec() == old(self).face_left_spec(),
            final(self).visible_spec() == old(self).visible_spec(),
    {
        proof {
            use_type_invariant(&*self);
        }
        self.got_bucko = got;
    }

    /// Puts Ami on screen; returns whether she was hidden before, so that
    /// her reveal must start.
    pub fn appear(&mut self) -> (appeared: bool)
        ensures
            appeared == !old(self).visible_spec(),
            final(self).visible_spec(),
            final(self).got_bucko_spec() == old(self).got_bucko_spec(),
            final(self).face_left_spec() == old(self).face_left_spec(),
    {
        proof {
            use_type_invariant(&*self);
        }
        let was_hidden = !self.visible;
        self.visible = true;
        was_hidden
    }

    /// Takes Ami off screen.
    pub fn disappear(&mut self)
        ensures
            !final(self).visible_spec(),
            final(self).got_bucko_spec() == old(self).got_bucko_spec(),
            final(self).face_left_spec() == old(self).face_left_spec(),
    {
        proof {
            use_type_invariant(&*self);
        }
        self.visible = false;
    }

    /// Whether the last jump caught a bucko.
    pub fn got_bucko(&self) -> (b: bool)
        ensures
            b == self.got_bucko_spec(),
    {
        self.got_bucko
    }

    /// Whether Ami faces left.
    pub fn face_left(&self) -> (b: bool)
        ensures
            b == self.face_left_spec(),
    {
        self.face_left
    }

    /// Whether Ami is on screen.
    pub fn visible(&self) -> (b: bool)
        ensures
            b == self.visible_spec(),
    {
        self.visible
    }
}

/// Every step leads from an animation of the sheet to an animation of the
/// sheet.
pub proof fn lemma_animation_in_sheet(
    animation: usize,
    last_frame: bool,
    got_bucko: bool,
    path_ahead: bool,
    silk_above: bool,
)
    requires
        animation < ANIMATIONS,
    ensures
        next_animation(animation, ami_step(animation, last_frame, got_bucko, path_ahead, silk_above))
            < ANIMATIONS,
{
}

/// Waiting and the end screen are left by nothing Ami does herself: only
/// the game moves her on from them.
pub proof fn lemma_waiting_is_still(
    last_frame: bool,
    got_bucko: bool,
    path_ahead: bool,
    silk_above: bool,
)
    ensures
        ami_step(WAIT, last_frame, got_bucko, path_ahead, silk_above) == AmiStep::Animate,
        ami_step(GAMEOVER, last_frame, got_bucko, path_ahead, silk_above) == AmiStep::Animate,
{
}

/// Revealing, landing, catching and looking play on until their last
/// frame: only then does Ami move on.
pub proof fn lemma_finite_animations_play_out(
    animation: usize,
    got_bucko: bool,
    path_ahead: bool,
    silk_above: bool,
)
    requires
        is_finite(animation),
    ensures
        ami_step(animation, false, got_bucko, path_ahead, silk_above) == AmiStep::Animate,
        ami_step(animation, true, got_bucko, path_ahead, silk_above) != AmiStep::Animate,
{
}

/// After a jump, landing leads to the catch exactly when a bucko was
/// caught, and both ways lead on to looking around.
pub proof fn lemma_landing(got_bucko: bool, path_ahead: bool, silk_above: bool)
    ensures
        ami_step(LAND, true, got_bucko, path_ahead, silk_above) == AmiStep::Switch(
            if got_bucko {
                CATCH
            } else {
                LOOK
            },
        ),
        ami_step(CATCH, true, got_bucko, path_ahead, silk_above) == AmiStep::Switch(LOOK),
{
}

} // verus!
