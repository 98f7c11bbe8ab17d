//! When a held mouse button spawns a ball.
use vstd::prelude::*;
use crate::math::scalar::{minus, Scalar};
use crate::physics::store::EntityId;

verus! {

/// The time for which a click keeps further clicks from spawning: 0.2.
pub const SPAWN_DELAY: Scalar = 200_000;

/// What the program remembers between frames.
pub struct AppState {
    pub balls: Vec<EntityId>,
    /// The time left until a click may spawn again.
    pub new_timer: Scalar,
    /// Whether a click has spawned and its delay is still running.
    pub clicked: bool,
}

impl AppState {
    /// Whether the frame only lets the delay of an earlier click run on.
    pub open spec fn is_waiting(self) -> bool {
        self.new_timer > 0 && self.clicked
    }

    /// The timer after a frame of length `dt`.
    pub open spec fn next_timer(self, dt: Scalar) -> Scalar {
        if self.new_timer <= 0 {
            SPAWN_DELAY
        } else if self.clicked {
            minus(self.new_timer, dt)
        } else {
            self.new_timer
        }
    }

    /// Whether a frame in which the button is down or up, as `pressed` says,
    /// spawns a ball.
    pub open spec fn spawns(self, pressed: bool) -> bool {
        !self.is_waiting() && pressed
    }

    /// The state at the start of a program.
    pub fn new() -> (r: Self)
        ensures
            r.balls@ == Seq::<EntityId>::empty(),
            r.new_timer == SPAWN_DELAY,
            !r.clicked,
    {
        AppState { balls: Vec::new(), new_timer: SPAWN_DELAY, clicked: false }
    }

    /// Takes the state through one frame of length `dt` and says whether a
    /// ball is to be spawned.
    ///
    /// While the delay of an earlier click runs, the frame only takes `dt`
    /// off the timer.  Once the timer has run out it is wound up again and
    /// the click is forgotten.  Outside of a delay, a button that is down
    /// spawns a ball and starts the delay.
    pub fn spawn_ball_onclick(&mut self, dt: Scalar, pressed: bool) -> (spawn: bool)
        ensures
            spawn == old(self).spawns(pressed),
            final(self).new_timer == old(self).next_timer(dt),
            final(self).clicked == (old(self).is_waiting() || pressed),
            final(self).balls == old(self).balls,
    {
        if self.new_timer <= 0 {
            self.clicked = false;
            self.new_timer = SPAWN_DELAY;
        } else if self.clicked {
            self.new_timer = minus(self.new_timer, dt);
            return false;
        }
        if pressed {
            self.clicked = true;
            return true;
        }
        false
    }
}

} // verus!
