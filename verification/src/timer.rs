//! The step timer: which step is current, whether an alert is raised, and
//! when the alert is to be heard.

use crate::schedule::{
    cumulative_steps, lemma_step_at, locate, offset_after, step_at, valid_plan, PlanError, Step,
};
use std::time::Instant;
use vstd::prelude::*;

verus! {

/// A timer over a fixed plan of steps.
///
/// The plan never changes after construction. Acknowledging an alert lowers
/// the timer's one alert flag; steps carry no flag of their own.
#[derive(Debug)]
pub struct StepTimer {
    steps: Vec<Step>,
    started_at: Option<Instant>,
    current_index: usize,
    alert_pending: bool,
    last_alert_second: u64,
}

/// What a timer is, as plain mathematical values.
pub struct TimerView {
    /// The steps, in order.
    pub plan: Seq<Step>,
    /// When counting began; `None` while the timer has not been started.
    pub started_at: Option<Instant>,
    /// The index of the current step.
    pub current_index: int,
    /// Whether a step change has not been acknowledged yet.
    pub alert_pending: bool,
    /// The elapsed second at which the alert was last heard.
    pub last_alert_second: u64,
}

/// What one frame of the display shows and does.
#[derive(Clone, Copy, Debug, PartialEq, Eq, Structural)]
pub struct Frame {
    /// The elapsed seconds to show; zero while the timer has not been started.
    pub elapsed_seconds: u64,
    /// The index of the step to show as current.
    pub current_index: usize,
    /// Whether an alert is raised, so that it can be silenced.
    pub alert_pending: bool,
    /// Whether the alert sound is to be played in this frame.
    pub sound_alert: bool,
    /// Whether the timer can still be started.
    pub can_start: bool,
}

impl TimerView {
    /// The plan is valid and the current index is one of its steps.
    pub open spec fn wf(self) -> bool {
        valid_plan(self.plan) && 0 <= self.current_index < self.plan.len()
    }

    /// The state of a timer that was just made: not started, at the first
    /// step, no alert raised. It remembers second zero as the second at which
    /// the alert was last heard, so an alert raised at second zero is first
    /// heard a second later.
    pub open spec fn is_fresh(self) -> bool {
        &&& self.started_at is None
        &&& self.current_index == 0
        &&& !self.alert_pending
        &&& self.last_alert_second == 0
    }

    /// The timer after `elapsed` seconds were reported to it: the first step
    /// that ends after `elapsed` becomes current, and the alert is raised if
    /// that is another step than before. Once every step has ended nothing
    /// changes.
    pub open spec fn advance(self, elapsed: u64) -> TimerView {
        match step_at(self.plan, elapsed) {
            Some(i) => TimerView {
                current_index: i,
                alert_pending: self.alert_pending || i != self.current_index,
                ..self
            },
            None => self,
        }
    }

    /// The timer after its alert was acknowledged.
    pub open spec fn acknowledge(self) -> TimerView {
        TimerView { alert_pending: false, ..self }
    }

    /// The timer after a request to start it at `now`: a timer that is
    /// already running stays as it is.
    pub open spec fn start(self, now: Instant) -> TimerView {
        if self.started_at is Some {
            self
        } else {
            TimerView { started_at: Some(now), ..self }
        }
    }

    /// The alert is to be heard at `second`: it is raised, and it was not
    /// heard at this very second before.
    pub open spec fn sound_due(self, second: u64) -> bool {
        self.alert_pending && second != self.last_alert_second
    }

    /// The timer after the sound was asked for at `second`: where it is due,
    /// `second` is remembered as the second at which it was heard.
    pub open spec fn sounded(self, second: u64) -> TimerView {
        if self.sound_due(second) {
            TimerView { last_alert_second: second, ..self }
        } else {
            self
        }
    }

    /// The seconds that a frame shows: the elapsed seconds of a running
    /// timer, zero otherwise.
    pub open spec fn shown_seconds(self, elapsed: u64) -> u64 {
        if self.started_at is Some {
            elapsed
        } else {
            0
        }
    }

    /// The timer of a frame before its sound is asked for: a running timer
    /// advances, one that was not started stays as it is.
    pub open spec fn ticked(self, elapsed: u64) -> TimerView {
        if self.started_at is Some {
            self.advance(elapsed)
        } else {
            self
        }
    }

    /// The timer after a frame at `elapsed` seconds.
    pub open spec fn after_frame(self, elapsed: u64) -> TimerView {
        self.ticked(elapsed).sounded(self.shown_seconds(elapsed))
    }

    /// What the frame at `elapsed` seconds shows and does.
    pub open spec fn frame(self, elapsed: u64) -> Frame {
        Frame {
            elapsed_seconds: self.shown_seconds(elapsed),
            current_index: self.ticked(elapsed).current_index as usize,
            alert_pending: self.ticked(elapsed).alert_pending,
            sound_alert: self.ticked(elapsed).sound_due(self.shown_seconds(elapsed)),
            can_start: self.started_at is None,
        }
    }

    /// The timer after each of `elapsed` was reported to it, in order.
    pub open spec fn run(self, elapsed: Seq<u64>) -> TimerView
        decreases elapsed.len(),
    {
        if elapsed.len() == 0 {
            self
        } else {
            self.run(elapsed.drop_last()).advance(elapsed.last())
        }
    }
}

impl View for StepTimer {
    type V = TimerView;

    closed spec fn view(&self) -> TimerView {
        TimerView {
            plan: self.steps@,
            started_at: self.started_at,
            current_index: self.current_index as int,
            alert_pending: self.alert_pending,
            last_alert_second: self.last_alert_second,
        }
    }
}

/// The steps of the bread plan with the seconds that each takes.
pub open spec fn bread_durations() -> Seq<(&'static str, u64)> {
    seq![
        ("Autolyse", 30u64),
        ("S&F No.1", 30u64),
        ("Bulk", 120u64),
        ("Shaping", 30u64),
        ("Proofing", 120u64),
    ]
}

impl StepTimer {
    #[verifier::type_invariant]
    spec fn inv(self) -> bool {
        valid_plan(self.steps@) && self.current_index < self.steps@.len()
    }

    /// A timer over the given steps, laid end to end in the order given.
    ///
    /// Fails on an empty list, and on one whose durations add up to more
    /// than a `u64` holds.
    pub fn from_durations(durations: &[(&str, u64)]) -> (made: Result<Self, PlanError>)
        ensures
            match made {
                Ok(timer) => {
                    &&& durations@.len() > 0
                    &&& timer@.wf()
                    &&& timer@.is_fresh()
                    &&& timer@.plan.len() == durations@.len()
                    &&& forall|i: int|
                        0 <= i < durations@.len() ==> {
                            &&& (#[trigger] timer@.plan[i]).name@ == durations@[i].0@
                            &&& timer@.plan[i].end_offset == offset_after(durations@, i + 1)
                        }
                },
                Err(PlanError::Empty) => durations@.len() == 0,
                Err(PlanError::TooLong) => {
                    &&& durations@.len() > 0
                    &&& offset_after(durations@, durations@.len() as int) > u64::MAX
                },
            },
    {
        match cumulative_steps(durations) {
            Ok(steps) => Ok(
                StepTimer {
                    steps,
                    started_at: None,
                    current_index: 0,
                    alert_pending: false,
                    last_alert_second: 0,
                },
            ),
            Err(e) => Err(e),
        }
    }

    /// A timer over the bread plan: Autolyse, S&F No.1, Bulk, Shaping and
    /// Proofing, which end 30, 60, 180, 210 and 330 seconds after the start.
    pub fn new() -> (timer: Self)
        ensures
            timer@.wf(),
            timer@.is_fresh(),
            timer@.plan.len() == 5,
            forall|i: int|
                0 <= i < 5 ==> (#[trigger] timer@.plan[i]).name@ == bread_durations()[i].0@,
            timer@.plan[0].end_offset == 30,
            timer@.plan[1].end_offset == 60,
            timer@.plan[2].end_offset == 180,
            timer@.plan[3].end_offset == 210,
            timer@.plan[4].end_offset == 330,
    {
        let durations = [
            ("Autolyse", 30u64),
            ("S&F No.1", 30u64),
            ("Bulk", 120u64),
            ("Shaping", 30u64),
            ("Proofing", 120u64),
        ];
        proof {
            reveal_with_fuel(offset_after, 6);
            assert(durations@ =~= bread_durations());
        }
        StepTimer::from_durations(&durations).unwrap()
    }

    /// The steps of the plan, in order.
    pub fn steps(&self) -> (steps: &Vec<Step>)
        ensures
            steps@ == self@.plan,
            self@.wf(),
    {
        proof {
            use_type_invariant(self);
        }
        &self.steps
    }

    /// The step that is current.
    pub fn current_step(&self) -> (step: &Step)
        ensures
            self@.wf(),
            *step == self@.plan[self@.current_index],
    {
        proof {
            use_type_invariant(self);
        }
        &self.steps[self.current_index]
    }

    /// The index of the current step.
    pub fn current_index(&self) -> (index: usize)
        ensures
            self@.wf(),
            index == self@.current_index,
    {
        proof {
            use_type_invariant(self);
        }
        self.current_index
    }

    /// Whether a step change has not been acknowledged yet.
    pub fn alert_pending(&self) -> (pending: bool)
        ensures
            pending == self@.alert_pending,
    {
        self.alert_pending
    }

    /// The elapsed second at which the alert was last heard.
    pub fn last_alert_second(&self) -> (second: u64)
        ensures
            second == self@.last_alert_second,
    {
        self.last_alert_second
    }

    /// When counting began, if it has.
    pub fn started_at(&self) -> (at: Option<Instant>)
        ensures
            at == self@.started_at,
    {
        self.started_at
    }

    /// Whether the timer has been started.
    pub fn is_running(&self) -> (running: bool)
        ensures
            running == (self@.started_at is Some),
    {
        self.started_at.is_some()
    }

    /// Starts counting at `now`. A timer that is already running keeps its
    /// first start.
    pub fn start(&mut self, now: Instant)
        ensures
            final(self)@ == old(self)@.start(now),
            final(self)@.wf(),
    {
        proof {
            use_type_invariant(&*self);
        }
        if self.started_at.is_none() {
            self.started_at = Some(now);
        }
    }

    /// Reports the elapsed seconds to the timer and returns the current
    /// index and whether an alert is raised.
    ///
    /// The first step that ends after `elapsed_seconds` becomes current; if
    /// that is another step than before, the alert is raised. Once every step
    /// has ended, nothing changes.
    pub fn advance(&mut self, elapsed_seconds: u64) -> (now: (usize, bool))
        ensures
            final(self)@ == old(self)@.advance(elapsed_seconds),
            final(self)@.wf(),
            now.0 == final(self)@.current_index,
            now.1 == final(self)@.alert_pending,
    {
        proof {
            use_type_invariant(&*self);
            lemma_step_at(self.steps@, elapsed_seconds);
        }
        match locate(&self.steps, elapsed_seconds) {
            Some(i) => {
                if i != self.current_index {
                    self.alert_pending = true;
                }
                self.current_index = i;
            },
            None => {},
        }
        (self.current_index, self.alert_pending)
    }

    /// Lowers the alert. The current step and what was heard stay.
    pub fn acknowledge(&mut self)
        ensures
            final(self)@ == old(self)@.acknowledge(),
            final(self)@.wf(),
    {
        proof {
            use_type_invariant(&*self);
        }
        self.alert_pending = false;
    }

    /// Asks whether the alert sound is to be played at `second`, and if so
    /// remembers `second`, so that the sound is played once in a second
    /// however often this is asked.
    pub fn claim_sound(&mut self, second: u64) -> (play: bool)
        ensures
            play == old(self)@.sound_due(second),
            final(self)@ == old(self)@.sounded(second),
            final(self)@.wf(),
    {
        proof {
            use_type_invariant(&*self);
        }
        if self.alert_pending && second != self.last_alert_second {
            self.last_alert_second = second;
            true
        } else {
            false
        }
    }

    /// One frame of the display at `elapsed_seconds`.
    ///
    /// A running timer advances to `elapsed_seconds`; a timer that has not
    /// been started stays as it is and shows zero seconds. Then the sound is
    /// claimed for the second shown.
    pub fn frame(&mut self, elapsed_seconds: u64) -> (frame: Frame)
        ensures
            frame == old(self)@.frame(elapsed_seconds),
            final(self)@ == old(self)@.after_frame(elapsed_seconds),
            final(self)@.wf(),
    {
        let running = self.is_running();
        let shown = if running {
            elapsed_seconds
        } else {
            0
        };
        if running {
            self.advance(shown);
        }
        let current_index = self.current_index();
        let alert_pending = self.alert_pending();
        let sound_alert = self.claim_sound(shown);
        Frame {
            elapsed_seconds: shown,
            current_index,
            alert_pending,
            sound_alert,
            can_start: !running,
        }
    }

    /// The whole seconds since the timer was started, read from the clock;
    /// zero while it has not been started.
    pub fn elapsed_seconds(&self) -> (seconds: u64)
        ensures
            self@.started_at is None ==> seconds == 0,
    {
        match self.started_at {
            Some(start) => start.elapsed().as_secs(),
            None => 0,
        }
    }

    /// One frame of the display at the time that the clock shows.
    ///
    /// The elapsed seconds come from the clock, so a running timer gets the
    /// frame of some number of seconds; a timer that has not been started
    /// gets the frame of zero seconds.
    pub fn poll(&mut self) -> (frame: Frame)
        ensures
            exists|elapsed: u64|
                frame == #[trigger] old(self)@.frame(elapsed) && final(self)@ == old(
                    self,
                )@.after_frame(elapsed),
            old(self)@.started_at is None ==> frame == old(self)@.frame(0) && final(self)@ == old(
                self,
            )@.after_frame(0),
            final(self)@.wf(),
    {
        let elapsed = self.elapsed_seconds();
        self.frame(elapsed)
    }
}

} // verus!
