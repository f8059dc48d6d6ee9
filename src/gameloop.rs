use vstd::prelude::*;
use crate::timer::{FrameTimer, DEFAULT_FRAME_NANOS, FRAME_WINDOW};

verus! {

/// The accumulator's fixed-point unit: this many units make one whole update.
pub const ONE_UPDATE: u64 = 1_000_000_000;

/// Nanoseconds in a second.
pub const NANOS_PER_SEC: u64 = 1_000_000_000;

/// Time half of the lockstep tolerance band: one millisecond.
pub const LOCKSTEP_NANOS: u64 = 1_000_000;

/// Frequency half of the lockstep tolerance band, in updates per second.
pub const LOCKSTEP_HZ: u64 = 2;

/// Catch-up divisor: once more than `ups / CATCH_UP_DIVISOR` updates ran in one frame,
/// the remaining debt is clamped.
pub const CATCH_UP_DIVISOR: u64 = 12;

/// What a callback asks of the loop.
#[derive(Clone, Copy, Debug, PartialEq, Eq, Structural)]
pub enum GameloopCommand {
    Continue,
    Exit,
    Pause,
    UnPause,
    /// Switch to this many updates per second. A rate of zero is ignored.
    ChangeUps(u64),
}

/// The callbacks the loop drives once per frame.
///
/// A verified implementation keeps a ghost log of the calls it received, `calls`, to
/// which each call appends itself; the loop's contract is stated over that log. The
/// default log is only a placeholder for implementations outside verification, which
/// cannot meet `update`'s contract with it and are not checked against it.
pub trait Game {
    /// The calls received so far, oldest first.
    open spec fn calls(&self) -> Seq<GameCall> {
        Seq::empty()
    }

    /// Advances the simulation by one fixed step.
    fn update(&mut self) -> (c: GameloopCommand)
        ensures
            final(self).calls() == old(self).calls().push(GameCall::Update(c)),
    ;

    /// Draws a frame. `alpha` is the interpolation factor in units of `ONE_UPDATE`,
    /// `frame_nanos` the smoothed frame time.
    fn render(&mut self, alpha: u64, frame_nanos: u64)
        ensures
            final(self).calls() == old(self).calls().push(GameCall::Render(alpha, frame_nanos)),
    ;
}

/// A call the loop made on a `Game`.
#[derive(Clone, Copy, Debug, PartialEq, Eq, Structural)]
pub enum GameCall {
    /// `update`, with the command it returned.
    Update(GameloopCommand),
    /// `render`, with its interpolation factor and frame time.
    Render(u64, u64),
}

/// The calls of one update per command of `cmds`.
pub open spec fn update_calls(cmds: Seq<GameloopCommand>) -> Seq<GameCall> {
    cmds.map_values(|c: GameloopCommand| GameCall::Update(c))
}

/// Frame time is below the lower edge of the lockstep band:
/// `ft < max(1/ups - 1ms, 1/(ups + 2))`.
pub open spec fn spec_high_framerate(ft: int, ups: int) -> bool {
    (ft + LOCKSTEP_NANOS) * ups < NANOS_PER_SEC || ft * (ups + LOCKSTEP_HZ) < NANOS_PER_SEC
}

/// Frame time is above the upper edge of the lockstep band:
/// `ft > min(1/ups + 1ms, 1/(ups - 2))`, where `1/(ups - 2)` is infinite at `ups == 2`
/// and negative below it.
pub open spec fn spec_low_framerate(ft: int, ups: int) -> bool {
    (ft > LOCKSTEP_NANOS && (ft - LOCKSTEP_NANOS) * ups > NANOS_PER_SEC)
        || ups < LOCKSTEP_HZ
        || (ups > LOCKSTEP_HZ && ft * (ups - LOCKSTEP_HZ) > NANOS_PER_SEC)
}

pub open spec fn spec_min(a: int, b: int) -> int {
    if a < b { a } else { b }
}

/// Debt left after the update numbered `count` (from 1) in a frame consumes its step:
/// past `ups / 12` updates the debt is first clamped to two steps.
pub open spec fn debt_after_update(acc: int, ups: int, count: nat) -> int {
    (if count > ups / (CATCH_UP_DIVISOR as int) { spec_min(acc, 2 * ONE_UPDATE) } else { acc })
        - ONE_UPDATE
}

/// Number of updates a frame still runs from debt `acc`, with `done` updates already run,
/// when the rate stays `ups` and no update pauses or exits.
pub open spec fn updates_left(acc: int, ups: int, done: nat) -> nat
    decreases acc,
{
    if acc > ONE_UPDATE {
        1 + updates_left(debt_after_update(acc, ups, done + 1), ups, done + 1)
    } else {
        0
    }
}

/// Debt after a rate change from `old_ups` to `new_ups`: scaled by `new_ups / old_ups`,
/// rounded down, saturating at `u64::MAX`.
pub open spec fn spec_scaled_debt(acc: int, old_ups: int, new_ups: int) -> int {
    spec_min(acc * new_ups / old_ups, u64::MAX as int)
}

/// The part of the scheduler's state that updates and commands change.
#[derive(Clone, Copy, Debug, PartialEq, Eq, Structural)]
pub struct LoopState {
    pub paused: bool,
    pub ups: u64,
    pub accumulator: u64,
    pub updates: u64,
}

/// Another fixed update runs from `s`: more than one step of debt, not paused, and the
/// frame's update count not exhausted.
pub open spec fn can_update(s: LoopState) -> bool {
    s.accumulator > ONE_UPDATE && !s.paused && s.updates < u64::MAX
}

/// `s` after one more update consumes its step.
pub open spec fn consume_step(s: LoopState) -> LoopState {
    LoopState {
        updates: (s.updates + 1) as u64,
        accumulator: debt_after_update(s.accumulator as int, s.ups as int, (s.updates + 1) as nat)
            as u64,
        ..s
    }
}

/// `s` after a callback returned `c`.
pub open spec fn command_effect(s: LoopState, c: GameloopCommand) -> LoopState {
    match c {
        GameloopCommand::Pause => LoopState { paused: true, ..s },
        GameloopCommand::UnPause => LoopState { paused: false, ..s },
        GameloopCommand::ChangeUps(n) => if n > 0 {
            LoopState {
                ups: n,
                accumulator: spec_scaled_debt(s.accumulator as int, s.ups as int, n as int) as u64,
                ..s
            }
        } else {
            s
        },
        _ => s,
    }
}

/// `s` after one update per command of `cmds`, each followed by that command.
pub open spec fn after_commands(s: LoopState, cmds: Seq<GameloopCommand>) -> LoopState
    decreases cmds.len(),
{
    if cmds.len() == 0 {
        s
    } else {
        command_effect(consume_step(after_commands(s, cmds.drop_last())), cmds.last())
    }
}

/// From `s`, an update was due before each command of `cmds`, and only the last one
/// may be `Exit`.
pub open spec fn valid_run(s: LoopState, cmds: Seq<GameloopCommand>) -> bool {
    forall|i: int|
        0 <= i < cmds.len() ==> can_update(after_commands(s, #[trigger] cmds.take(i))) && (i
            < cmds.len() - 1 ==> cmds[i] != GameloopCommand::Exit)
}

/// Every command is `Continue`, `Pause` or `UnPause`: none changes the rate or exits.
pub open spec fn steady(cmds: Seq<GameloopCommand>) -> bool {
    forall|i: int|
        0 <= i < cmds.len() ==> (#[trigger] cmds[i] == GameloopCommand::Continue || cmds[i]
            == GameloopCommand::Pause || cmds[i] == GameloopCommand::UnPause)
}

/// Every command is `Continue`.
pub open spec fn only_continue(cmds: Seq<GameloopCommand>) -> bool {
    forall|i: int| 0 <= i < cmds.len() ==> #[trigger] cmds[i] == GameloopCommand::Continue
}

proof fn lemma_updates_left_bound(acc: int, ups: int, done: nat)
    requires
        ups > 0,
    ensures
        done <= ups / (CATCH_UP_DIVISOR as int) ==> updates_left(acc, ups, done) <= ups / (
        CATCH_UP_DIVISOR as int) + 1 - done,
        done > ups / (CATCH_UP_DIVISOR as int) ==> updates_left(acc, ups, done) <= 1,
    decreases acc,
{
    if acc > ONE_UPDATE {
        let next = debt_after_update(acc, ups, done + 1);
        if done + 1 > ups / (CATCH_UP_DIVISOR as int) {
            assert(next <= ONE_UPDATE);
            assert(updates_left(next, ups, done + 1) == 0);
        } else {
            lemma_updates_left_bound(next, ups, done + 1);
        }
    }
}

/// At a fixed rate, however large the debt a frame starts with, the frame runs at most
/// `ups / 12 + 1` updates; when 12 does not divide `ups` that is `ceil(ups / 12)`.
pub proof fn lemma_catch_up_bounded(acc: int, ups: int)
    requires
        ups > 0,
    ensures
        updates_left(acc, ups, 0) <= ups / (CATCH_UP_DIVISOR as int) + 1,
        ups % (CATCH_UP_DIVISOR as int) != 0 ==> updates_left(acc, ups, 0) <= (ups + (
        CATCH_UP_DIVISOR as int) - 1) / (CATCH_UP_DIVISOR as int),
{
    lemma_updates_left_bound(acc, ups, 0);
}

/// A frame that starts from the lockstep debt of two steps runs exactly one update and
/// leaves one whole step, so it renders with a full interpolation factor.
pub proof fn lemma_lockstep_single_update(ups: int)
    requires
        ups > 0,
    ensures
        updates_left(2 * ONE_UPDATE, ups, 0) == 1,
        debt_after_update(2 * ONE_UPDATE, ups, 1) == ONE_UPDATE,
{
    assert(debt_after_update(2 * ONE_UPDATE, ups, 1) == ONE_UPDATE);
    assert(updates_left(ONE_UPDATE as int, ups, 1) == 0);
}

/// A rate change keeps the time the debt stands for, `after / new_ups == before / old_ups`,
/// up to rounding the fixed-point debt down: `after * old_ups` lies within one
/// `old_ups` below `before * new_ups`.
pub proof fn lemma_rate_change_keeps_time(before: u64, old_ups: u64, new_ups: u64)
    requires
        old_ups > 0,
        new_ups > 0,
        (before as int) * (new_ups as int) / (old_ups as int) <= u64::MAX,
    ensures
        ({
            let after = spec_scaled_debt(before as int, old_ups as int, new_ups as int);
            &&& after * old_ups <= before * new_ups
            &&& before * new_ups < (after + 1) * old_ups
        }),
{
    let x = (before as int) * (new_ups as int);
    let d = old_ups as int;
    assert(x >= 0) by (nonlinear_arith)
        requires
            x == (before as int) * (new_ups as int),
            before >= 0,
            new_ups >= 0,
    ;
    vstd::arithmetic::div_mod::lemma_fundamental_div_mod(x, d);
    let q = x / d;
    assert(spec_scaled_debt(before as int, old_ups as int, new_ups as int) == q);
    assert(q * d <= x);
    assert(x < (q + 1) * d) by (nonlinear_arith)
        requires
            x == d * q + x % d,
            x % d < d,
    ;
}

proof fn lemma_u64_product_fits(a: u64, b: u64)
    ensures
        (a as int) * (b as int) + u64::MAX <= u128::MAX,
        (a as int) * (b as int) >= 0,
{
    assert((a as int) * (b as int) <= (u64::MAX as int) * (u64::MAX as int)) by (nonlinear_arith)
        requires
            a <= u64::MAX,
            b <= u64::MAX,
    ;
    assert((a as int) * (b as int) >= 0) by (nonlinear_arith)
        requires
            a >= 0,
            b >= 0,
    ;
}

/// The variable-rate interpolating scheduler: decides, frame by frame, how many fixed
/// updates to run and with which interpolation factor to render.
pub struct Gameloop {
    ups: u64,
    lockstep: bool,
    accumulator: u64,
    paused: bool,
    low_framerate: bool,
    updates: u64,
    frame_nanos: u64,
    timer: FrameTimer,
    exited: bool,
}

/// What one call of `run_frame` did.
#[derive(Clone, Debug)]
pub struct FrameReport {
    /// Fixed updates run in this frame.
    pub updates: u64,
    /// The command each update of this frame returned, in order.
    pub commands: Vec<GameloopCommand>,
    /// The loop has stopped: an update of this frame or an earlier callback returned
    /// `Exit`, and no callback ran after it.
    pub exited: bool,
    /// Every update of this frame returned `Continue`.
    pub all_continue: bool,
    /// The interpolation factor `render` was called with, or `None` when it was not called.
    pub alpha: Option<u64>,
}

impl Gameloop {
    /// A positive rate and a full frame window.
    pub open spec fn wf(&self) -> bool {
        self.spec_ups() > 0 && self.spec_timer().wf()
    }

    /// The state updates and commands act on.
    pub open spec fn spec_state(&self) -> LoopState {
        LoopState {
            paused: self.spec_paused(),
            ups: self.spec_ups(),
            accumulator: self.spec_accumulator(),
            updates: self.spec_updates(),
        }
    }

    /// The state the update phase of the next frame starts from.
    pub open spec fn spec_planned_state(&self) -> LoopState {
        LoopState {
            paused: self.spec_paused(),
            ups: self.spec_ups(),
            accumulator: self.spec_planned_debt() as u64,
            updates: 0,
        }
    }

    /// Whether the next frame counts as a low frame rate.
    pub open spec fn spec_planned_low_framerate(&self) -> bool {
        if self.spec_paused() {
            self.spec_low_framerate()
        } else {
            spec_low_framerate(self.spec_timer().spec_smoothed(), self.spec_ups() as int)
        }
    }

    pub closed spec fn spec_ups(&self) -> u64 {
        self.ups
    }

    pub closed spec fn spec_lockstep(&self) -> bool {
        self.lockstep
    }

    /// Update debt, in units of `ONE_UPDATE`.
    pub closed spec fn spec_accumulator(&self) -> u64 {
        self.accumulator
    }

    pub closed spec fn spec_paused(&self) -> bool {
        self.paused
    }

    pub closed spec fn spec_low_framerate(&self) -> bool {
        self.low_framerate
    }

    /// Updates run so far in the current frame.
    pub closed spec fn spec_updates(&self) -> u64 {
        self.updates
    }

    /// Smoothed frame time of the current frame.
    pub closed spec fn spec_frame_nanos(&self) -> u64 {
        self.frame_nanos
    }

    /// Some callback has returned `Exit`: the loop has stopped.
    pub closed spec fn spec_exited(&self) -> bool {
        self.exited
    }

    pub closed spec fn spec_timer(&self) -> FrameTimer {
        self.timer
    }

    /// Interpolation factor the current frame renders with.
    pub open spec fn spec_alpha(&self) -> u64 {
        if self.spec_low_framerate() { ONE_UPDATE } else { self.spec_accumulator() }
    }

    /// A loop running at `ups` updates per second; `lockstep` allows snapping to one
    /// update per frame when the frame rate matches.
    pub fn new(ups: u64, lockstep: bool) -> (r: Gameloop)
        requires
            ups > 0,
        ensures
            r.wf(),
            r.spec_ups() == ups,
            r.spec_lockstep() == lockstep,
            r.spec_accumulator() == 0,
            !r.spec_paused(),
            !r.spec_low_framerate(),
            r.spec_updates() == 0,
            !r.spec_exited(),
            r.spec_timer().view() == Seq::new(FRAME_WINDOW as nat, |i: int| DEFAULT_FRAME_NANOS),
    {
        Gameloop {
            ups,
            lockstep,
            accumulator: 0,
            paused: false,
            low_framerate: false,
            updates: 0,
            frame_nanos: 0,
            timer: FrameTimer::new(),
            exited: false,
        }
    }

    /// Debt the current frame starts its updates with, from the state before planning.
    pub open spec fn spec_planned_debt(&self) -> int {
        let ft = self.spec_timer().spec_smoothed();
        let ups = self.spec_ups() as int;
        if self.spec_paused() {
            self.spec_accumulator() as int
        } else if spec_low_framerate(ft, ups) || spec_high_framerate(ft, ups)
            || !self.spec_lockstep() {
            spec_min(self.spec_accumulator() + ft * ups, u64::MAX as int)
        } else {
            2 * ONE_UPDATE
        }
    }

    /// Records the duration of the frame that just ended.
    pub fn record_frame(&mut self, elapsed_nanos: u64)
        requires
            old(self).wf(),
        ensures
            final(self).wf(),
            final(self).spec_timer().view() == old(self).spec_timer().view().drop_first().push(
                elapsed_nanos,
            ),
            final(self).spec_ups() == old(self).spec_ups(),
            final(self).spec_lockstep() == old(self).spec_lockstep(),
            final(self).spec_accumulator() == old(self).spec_accumulator(),
            final(self).spec_paused() == old(self).spec_paused(),
            final(self).spec_low_framerate() == old(self).spec_low_framerate(),
            final(self).spec_exited() == old(self).spec_exited(),
            final(self).spec_updates() == old(self).spec_updates(),
            final(self).spec_frame_nanos() == old(self).spec_frame_nanos(),
    {
        self.timer.record(elapsed_nanos);
    }

    /// Applies a command returned by a callback; returns whether the loop must stop.
    /// `ChangeUps` rescales the debt by `new / old` so that it stands for the same time.
    pub fn process_command(&mut self, command: GameloopCommand) -> (exit: bool)
        requires
            old(self).wf(),
        ensures
            final(self).wf(),
            exit == (command == GameloopCommand::Exit),
            final(self).spec_exited() == (old(self).spec_exited() || exit),
            final(self).spec_state() == command_effect(old(self).spec_state(), command),
            final(self).spec_paused() == (match command {
                GameloopCommand::Pause => true,
                GameloopCommand::UnPause => false,
                _ => old(self).spec_paused(),
            }),
            final(self).spec_ups() == (match command {
                GameloopCommand::ChangeUps(n) => if n > 0 { n } else { old(self).spec_ups() },
                _ => old(self).spec_ups(),
            }),
            final(self).spec_accumulator() == (match command {
                GameloopCommand::ChangeUps(n) => if n > 0 {
                    spec_scaled_debt(
                        old(self).spec_accumulator() as int,
                        old(self).spec_ups() as int,
                        n as int,
                    ) as u64
                } else {
                    old(self).spec_accumulator()
                },
                _ => old(self).spec_accumulator(),
            }),
            final(self).spec_lockstep() == old(self).spec_lockstep(),
            final(self).spec_low_framerate() == old(self).spec_low_framerate(),
            final(self).spec_updates() == old(self).spec_updates(),
            final(self).spec_frame_nanos() == old(self).spec_frame_nanos(),
            final(self).spec_timer() == old(self).spec_timer(),
    {
        match command {
            GameloopCommand::Pause => {
                self.paused = true;
                false
            },
            GameloopCommand::UnPause => {
                self.paused = false;
                false
            },
            GameloopCommand::ChangeUps(new_ups) => {
                if new_ups > 0 {
                    proof {
                        lemma_u64_product_fits(self.accumulator, new_ups);
                    }
                    let scaled: u128 = (self.accumulator as u128) * (new_ups as u128)
                        / (self.ups as u128);
                    self.accumulator = if scaled > u64::MAX as u128 {
                        u64::MAX
                    } else {
                        scaled as u64
                    };
                    self.ups = new_ups;
                }
                false
            },
            GameloopCommand::Exit => {
                self.exited = true;
                true
            },
            GameloopCommand::Continue => false,
        }
    }

    /// Starts the update phase of a frame: takes the smoothed frame time, and unless
    /// paused either adds its debt or, in lockstep at a matching rate, snaps the debt
    /// to two steps.
    pub fn plan_updates(&mut self)
        requires
            old(self).wf(),
        ensures
            final(self).wf(),
            final(self).spec_frame_nanos() == old(self).spec_timer().spec_smoothed(),
            final(self).spec_accumulator() == old(self).spec_planned_debt(),
            final(self).spec_low_framerate() == (if old(self).spec_paused() {
                old(self).spec_low_framerate()
            } else {
                spec_low_framerate(
                    old(self).spec_timer().spec_smoothed(),
                    old(self).spec_ups() as int,
                )
            }),
            final(self).spec_updates() == 0,
            final(self).spec_ups() == old(self).spec_ups(),
            final(self).spec_lockstep() == old(self).spec_lockstep(),
            final(self).spec_paused() == old(self).spec_paused(),
            final(self).spec_timer() == old(self).spec_timer(),
            final(self).spec_exited() == old(self).spec_exited(),
    {
        let ft = self.timer.smoothed_nanos();
        self.frame_nanos = ft;
        self.updates = 0;
        if !self.paused {
            let ft_w = ft as u128;
            let ups_w = self.ups as u128;
            proof {
                lemma_u64_product_fits(ft, self.ups);
                if ft >= LOCKSTEP_NANOS {
                    lemma_u64_product_fits((ft - LOCKSTEP_NANOS) as u64, self.ups);
                }
                if self.ups > LOCKSTEP_HZ {
                    lemma_u64_product_fits(ft, (self.ups - LOCKSTEP_HZ) as u64);
                }
                if ft < NANOS_PER_SEC {
                    assert((ft + LOCKSTEP_NANOS) * self.ups <= 2 * NANOS_PER_SEC * (u64::MAX as int))
                        by (nonlinear_arith)
                        requires
                            ft < NANOS_PER_SEC,
                            self.ups <= u64::MAX,
                    ;
                    assert(ft * (self.ups + LOCKSTEP_HZ) <= NANOS_PER_SEC * (u64::MAX as int + 2))
                        by (nonlinear_arith)
                        requires
                            ft < NANOS_PER_SEC,
                            self.ups <= u64::MAX,
                    ;
                } else {
                    assert((ft + LOCKSTEP_NANOS) * self.ups >= ft) by (nonlinear_arith)
                        requires
                            self.ups >= 1,
                    ;
                    assert(ft * (self.ups + LOCKSTEP_HZ) >= ft) by (nonlinear_arith)
                        requires
                            self.ups >= 1,
                    ;
                }
            }
            let high = ft < NANOS_PER_SEC && ((ft_w + LOCKSTEP_NANOS as u128) * ups_w
                < NANOS_PER_SEC as u128 || ft_w * (ups_w + LOCKSTEP_HZ as u128)
                < NANOS_PER_SEC as u128);
            let low = (ft > LOCKSTEP_NANOS && ((ft - LOCKSTEP_NANOS) as u128) * ups_w
                > NANOS_PER_SEC as u128) || self.ups < LOCKSTEP_HZ || (self.ups > LOCKSTEP_HZ
                && ft_w * ((self.ups - LOCKSTEP_HZ) as u128) > NANOS_PER_SEC as u128);
            self.low_framerate = low;
            if low || high || !self.lockstep {
                let sum: u128 = self.accumulator as u128 + ft_w * ups_w;
                self.accumulator = if sum > u64::MAX as u128 {
                    u64::MAX
                } else {
                    sum as u64
                };
            } else {
                self.accumulator = 2 * ONE_UPDATE;
            }
        }
    }

    /// Decides whether one more fixed update runs in this frame, and if so consumes its
    /// step from the debt. A frame never counts past `u64::MAX` updates.
    pub fn next_update(&mut self) -> (r: bool)
        requires
            old(self).wf(),
        ensures
            final(self).wf(),
            r == (old(self).spec_accumulator() > ONE_UPDATE && !old(self).spec_paused()
                && old(self).spec_updates() < u64::MAX),
            r == can_update(old(self).spec_state()),
            r ==> final(self).spec_state() == consume_step(old(self).spec_state()),
            !r ==> final(self).spec_state() == old(self).spec_state(),
            r ==> final(self).spec_updates() == old(self).spec_updates() + 1,
            r ==> final(self).spec_accumulator() == debt_after_update(
                old(self).spec_accumulator() as int,
                old(self).spec_ups() as int,
                final(self).spec_updates() as nat,
            ),
            !r ==> final(self).spec_updates() == old(self).spec_updates(),
            !r ==> final(self).spec_accumulator() == old(self).spec_accumulator(),
            final(self).spec_ups() == old(self).spec_ups(),
            final(self).spec_lockstep() == old(self).spec_lockstep(),
            final(self).spec_paused() == old(self).spec_paused(),
            final(self).spec_low_framerate() == old(self).spec_low_framerate(),
            final(self).spec_frame_nanos() == old(self).spec_frame_nanos(),
            final(self).spec_timer() == old(self).spec_timer(),
            final(self).spec_exited() == old(self).spec_exited(),
    {
        if self.accumulator > ONE_UPDATE && !self.paused && self.updates < u64::MAX {
            self.updates = self.updates + 1;
            if self.updates > self.ups / CATCH_UP_DIVISOR && self.accumulator > 2 * ONE_UPDATE {
                self.accumulator = 2 * ONE_UPDATE;
            }
            self.accumulator = self.accumulator - ONE_UPDATE;
            true
        } else {
            false
        }
    }

    /// Interpolation factor for rendering the current frame: a whole step when the
    /// frame rate is low, the leftover debt otherwise.
    pub fn render_alpha(&self) -> (r: u64)
        ensures
            r == self.spec_alpha(),
    {
        if self.low_framerate {
            ONE_UPDATE
        } else {
            self.accumulator
        }
    }

    /// Smoothed frame time of the current frame.
    pub fn frame_nanos(&self) -> (r: u64)
        ensures
            r == self.spec_frame_nanos(),
    {
        self.frame_nanos
    }

    /// Runs the update phase and the render of one frame: updates while debt remains,
    /// applying the command each update returns, then renders unless an update asked to
    /// exit. Once any callback has returned `Exit`, no further callback runs.
    pub fn run_frame<G: Game>(&mut self, game: &mut G) -> (r: FrameReport)
        requires
            old(self).wf(),
        ensures
            final(self).wf(),
            r.exited == final(self).spec_exited(),
            r.exited <==> r.alpha is None,
            old(self).spec_exited() ==> *final(game) == *old(game) && *final(self) == *old(self)
                && r.updates == 0 && r.commands@.len() == 0,
            !old(self).spec_exited() ==> ({
                let s0 = old(self).spec_planned_state();
                let cs = r.commands@;
                &&& r.updates == cs.len()
                &&& r.updates == final(self).spec_updates()
                &&& valid_run(s0, cs)
                &&& final(self).spec_state() == after_commands(s0, cs)
                &&& r.exited <==> cs.len() > 0 && cs.last() == GameloopCommand::Exit
                &&& !r.exited ==> !can_update(final(self).spec_state())
                &&& r.all_continue <==> only_continue(cs)
                &&& final(self).spec_low_framerate() == old(self).spec_planned_low_framerate()
                &&& final(self).spec_frame_nanos() == old(self).spec_timer().spec_smoothed()
                &&& final(self).spec_timer() == old(self).spec_timer()
                &&& final(self).spec_lockstep() == old(self).spec_lockstep()
                &&& r.exited ==> r.updates >= 1
                &&& !r.exited ==> r.alpha == Some(final(self).spec_alpha())
                &&& r.exited ==> final(game).calls() == old(game).calls() + update_calls(cs)
                &&& !r.exited ==> final(game).calls() == old(game).calls() + update_calls(cs).push(
                    GameCall::Render(r.alpha->0, final(self).spec_frame_nanos()),
                )
            }),
            !old(self).spec_exited() && (old(self).spec_paused() || old(self).spec_planned_debt()
                <= ONE_UPDATE) ==> !r.exited && r.updates == 0 && r.all_continue && final(
                self).spec_accumulator() == old(self).spec_planned_debt() && final(self).spec_paused()
                == old(self).spec_paused(),
            !old(self).spec_exited() && steady(r.commands@) ==> final(self).spec_ups() == old(
                self).spec_ups() && r.updates <= old(self).spec_ups() / CATCH_UP_DIVISOR + 1,
            !old(self).spec_exited() && !old(self).spec_paused() && only_continue(r.commands@)
                ==> r.updates == updates_left(
                old(self).spec_planned_debt(),
                old(self).spec_ups() as int,
                0,
            ) && final(self).spec_accumulator() <= ONE_UPDATE,
            ({
                let ft = old(self).spec_timer().spec_smoothed();
                let ups = old(self).spec_ups() as int;
                old(self).spec_lockstep() && !old(self).spec_paused() && !old(self).spec_exited()
                    && !spec_low_framerate(ft, ups) && !spec_high_framerate(ft, ups) && steady(
                    r.commands@,
                ) ==> r.updates == 1 && final(self).spec_accumulator() == ONE_UPDATE && r.alpha
                    == Some(ONE_UPDATE)
            }),
    {
        if self.exited {
            return FrameReport {
                updates: 0,
                commands: Vec::new(),
                exited: true,
                all_continue: true,
                alpha: None,
            };
        }
        let ghost old_low = old(self).spec_planned_low_framerate();
        self.plan_updates();
        let ghost s0 = self.spec_state();
        assert(s0 == old(self).spec_planned_state());
        let ghost acc0 = self.accumulator as int;
        let ghost ups0 = self.ups as int;
        let ghost paused0 = self.paused;
        let ghost total = updates_left(acc0, ups0, 0);
        proof {
            lemma_catch_up_bounded(acc0, ups0);
            assert(after_commands(s0, Seq::<GameloopCommand>::empty()) == s0);
        }
        let mut commands: Vec<GameloopCommand> = Vec::new();
        let mut all_continue = true;
        loop
            invariant
                self.wf(),
                !self.spec_exited(),
                !old(self).spec_exited(),
                s0 == old(self).spec_planned_state(),
                acc0 == s0.accumulator,
                ups0 == s0.ups,
                paused0 == s0.paused,
                self.spec_low_framerate() == old_low,
                old_low == old(self).spec_planned_low_framerate(),
                self.spec_frame_nanos() == old(self).spec_timer().spec_smoothed(),
                self.spec_timer() == old(self).spec_timer(),
                self.spec_lockstep() == old(self).spec_lockstep(),
                game.calls() == old(game).calls() + update_calls(commands@),
                commands@.len() == self.spec_updates(),
                self.spec_state() == after_commands(s0, commands@),
                forall|i: int|
                    0 <= i < commands@.len() ==> can_update(
                        after_commands(s0, #[trigger] commands@.take(i)),
                    ) && commands@[i] != GameloopCommand::Exit,
                all_continue <==> only_continue(commands@),
                !can_update(s0) ==> self.spec_updates() == 0,
                total <= ups0 / (CATCH_UP_DIVISOR as int) + 1,
                steady(commands@) ==> self.spec_ups() == ups0,
                steady(commands@) && !paused0 ==> self.spec_updates() + updates_left(
                    self.spec_accumulator() as int,
                    ups0,
                    self.spec_updates() as nat,
                ) == total,
                only_continue(commands@) ==> self.spec_paused() == paused0,
                steady(commands@) && !paused0 && acc0 == 2 * ONE_UPDATE ==> (self.spec_updates()
                    == 0 && self.spec_accumulator() == acc0) || (self.spec_updates() == 1
                    && self.spec_accumulator() == ONE_UPDATE),
            ensures
                self.wf(),
                !self.spec_exited(),
                self.spec_low_framerate() == old_low,
                self.spec_frame_nanos() == old(self).spec_timer().spec_smoothed(),
                self.spec_timer() == old(self).spec_timer(),
                self.spec_lockstep() == old(self).spec_lockstep(),
                game.calls() == old(game).calls() + update_calls(commands@),
                commands@.len() == self.spec_updates(),
                self.spec_state() == after_commands(s0, commands@),
                forall|i: int|
                    0 <= i < commands@.len() ==> can_update(
                        after_commands(s0, #[trigger] commands@.take(i)),
                    ) && commands@[i] != GameloopCommand::Exit,
                all_continue <==> only_continue(commands@),
                !can_update(s0) ==> self.spec_updates() == 0,
                !can_update(self.spec_state()),
                steady(commands@) ==> self.spec_ups() == ups0,
                steady(commands@) && !paused0 ==> self.spec_updates() + updates_left(
                    self.spec_accumulator() as int,
                    ups0,
                    self.spec_updates() as nat,
                ) == total,
                only_continue(commands@) ==> self.spec_paused() == paused0,
                steady(commands@) && !paused0 && acc0 == 2 * ONE_UPDATE ==> (self.spec_updates()
                    == 0 && self.spec_accumulator() == acc0) || (self.spec_updates() == 1
                    && self.spec_accumulator() == ONE_UPDATE),
            decreases u64::MAX - self.spec_updates(),
        {
            let ghost before = self.spec_state();
            let ghost cs = commands@;
            if !self.next_update() {
                assert(forall|i: int|
                    0 <= i < cs.len() ==> can_update(after_commands(s0, #[trigger] cs.take(i)))
                        && cs[i] != GameloopCommand::Exit);
                break;
            }
            proof {
                if steady(cs) && !paused0 && acc0 == 2 * ONE_UPDATE && before.updates == 0 {
                    lemma_lockstep_single_update(ups0);
                }
                if steady(cs) && !paused0 {
                    assert(updates_left(before.accumulator as int, ups0, before.updates as nat) == 1
                        + updates_left(self.accumulator as int, ups0, (before.updates + 1) as nat));
                }
            }
            let ghost log = game.calls();
            let command = game.update();
            if !matches!(command, GameloopCommand::Continue) {
                all_continue = false;
            }
            let exit = self.process_command(command);
            commands.push(command);
            proof {
                let ns = commands@;
                assert(update_calls(ns) =~= update_calls(cs).push(GameCall::Update(command)));
                assert(game.calls() =~= old(game).calls() + update_calls(ns));
                assert(ns.drop_last() =~= cs);
                assert(ns.last() == command);
                assert(ns.take(cs.len() as int) =~= cs);
                assert forall|i: int| 0 <= i < cs.len() implies #[trigger] ns.take(i) == cs.take(i) by {
                    assert(ns.take(i) =~= cs.take(i));
                }
                assert(only_continue(ns) <==> only_continue(cs) && command
                    == GameloopCommand::Continue) by {
                    if only_continue(cs) && command == GameloopCommand::Continue {
                        assert forall|i: int| 0 <= i < ns.len() implies #[trigger] ns[i]
                            == GameloopCommand::Continue by {
                            if i < cs.len() {
                                assert(ns[i] == cs[i]);
                            }
                        }
                    }
                    if only_continue(ns) {
                        assert(ns[cs.len() as int] == command);
                        assert forall|i: int| 0 <= i < cs.len() implies #[trigger] cs[i]
                            == GameloopCommand::Continue by {
                            assert(ns[i] == cs[i]);
                        }
                    }
                }
                if steady(ns) {
                    assert(ns[cs.len() as int] == command);
                    assert forall|i: int| 0 <= i < cs.len() implies (#[trigger] cs[i]
                        == GameloopCommand::Continue || cs[i] == GameloopCommand::Pause || cs[i]
                        == GameloopCommand::UnPause) by {
                        assert(ns[i] == cs[i]);
                    }
                }
            }
            if exit {
                return FrameReport {
                    updates: self.updates,
                    commands,
                    exited: true,
                    all_continue,
                    alpha: None,
                };
            }
            proof {
                let ns = commands@;
                assert forall|i: int| 0 <= i < ns.len() implies can_update(
                    after_commands(s0, #[trigger] ns.take(i)),
                ) && ns[i] != GameloopCommand::Exit by {
                    if i < cs.len() {
                        assert(ns.take(i) == cs.take(i));
                        assert(ns[i] == cs[i]);
                    } else {
                        assert(ns.take(i) =~= cs);
                    }
                }
            }
        }
        let alpha = self.render_alpha();
        game.render(alpha, self.frame_nanos);
        proof {
            let cs = commands@;
            if self.lockstep && !paused0 && steady(cs) && acc0 == 2 * ONE_UPDATE {
                lemma_lockstep_single_update(ups0);
            }
        }
        FrameReport { updates: self.updates, commands, exited: false, all_continue, alpha: Some(alpha) }
    }

    pub fn ups(&self) -> (r: u64)
        ensures
            r == self.spec_ups(),
    {
        self.ups
    }

    pub fn is_paused(&self) -> (r: bool)
        ensures
            r == self.spec_paused(),
    {
        self.paused
    }

    pub fn is_exited(&self) -> (r: bool)
        ensures
            r == self.spec_exited(),
    {
        self.exited
    }

    pub fn accumulator(&self) -> (r: u64)
        ensures
            r == self.spec_accumulator(),
    {
        self.accumulator
    }
}

} // verus!
