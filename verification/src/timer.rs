//! Decisions of the background timer.
//!
//! The timer waits for a start command, counts down the reminder interval
//! (reporting the remaining time once a second), then shows the animated
//! light for the configured laps, and starts the next countdown.  A stop
//! command ends the cycle at once; a start command received during a cycle
//! takes effect from the next cycle on.
//!
//! The loop that talks to the outside world (the command channel, the
//! clock, the overlay window, the tray, sleeping) is the caller's: it asks
//! [`Timer::step`] what to do after each thing it observed.  The caller
//! performs the returned effects in order, then does what [`Next`] says
//! and hands back the matching [`Event`].
use vstd::prelude::*;

verus! {

/// Nanoseconds in a second; the clock is read in nanoseconds.
pub const NANOS_PER_SEC: u64 = 1_000_000_000;

/// Pause between two countdown reports, in milliseconds.
pub const COUNTDOWN_SLEEP_MS: u64 = 1000;

/// Pause between two animation frames, in milliseconds (about 60 frames a
/// second).
pub const FRAME_SLEEP_MS: u64 = 16;

/// The parameters of a reminder cycle: the interval before the light
/// appears, in seconds, and the animation's own parameters (lap duration
/// and number of laps), which only the caller interprets.
#[derive(Clone, Copy, Debug, PartialEq)]
pub struct Params<A> {
    pub interval_s: u64,
    pub anim: A,
}

/// A command sent to the timer.
#[derive(Clone, Copy, Debug, PartialEq)]
pub enum Cmd<A> {
    Start(Params<A>),
    Stop,
}

/// The tray tooltip texts the timer sets.
#[derive(Clone, Copy, Debug, PartialEq)]
pub enum Tooltip {
    /// Not started.
    NotStarted,
    /// Seconds left before the next relaxation.
    Countdown(u64),
    /// The light is running.
    Relaxing,
}

/// Something the caller must do to the outside world.
#[derive(Clone, Copy, Debug, PartialEq)]
pub enum Effect<A> {
    /// Publish the status "idle".
    ReportIdle,
    /// Publish the status "waiting", with the seconds left.
    ReportWaiting(u64),
    /// Publish the status "running", with the animation's elapsed and total
    /// time as the caller measures them.
    ReportRunning,
    /// Set the tray tooltip.
    SetTooltip(Tooltip),
    /// Create and show the overlay and start the animation clock for these
    /// animation parameters.
    OpenOverlay(A),
    /// Draw one frame of the animation with these parameters.
    RenderFrame(A),
    /// Hide the overlay.
    CloseOverlay,
    /// Sleep for this many milliseconds.
    Sleep(u64),
}

/// What the caller observed.
#[derive(Clone, Copy, Debug, PartialEq)]
pub enum Event<A> {
    /// A blocking receive returned a command.
    Received(Cmd<A>),
    /// A blocking receive found the channel closed.
    Disconnected,
    /// The monotonic clock, in nanoseconds.
    Clock(u64),
    /// A non-blocking receive: a command, or nothing (empty or closed
    /// channel alike).
    Polled(Option<Cmd<A>>),
    /// Whether the animation's elapsed time exceeds its total time.
    AnimationOver(bool),
}

/// What the caller does next to produce the next event.
#[derive(Clone, Copy, Debug, PartialEq)]
pub enum Next {
    /// Block until a command arrives: answer `Received` or `Disconnected`.
    Receive,
    /// Read the clock: answer `Clock`.
    ReadClock,
    /// Try to receive a command without blocking: answer `Polled`.
    Poll,
    /// Compare the animation's elapsed time with its total: answer
    /// `AnimationOver`.
    CheckAnimation,
    /// Stop the timer thread.
    Exit,
}

/// The timer's state.  `cycle` holds the parameters of the running cycle,
/// `latest` the parameters of the most recent start command, which the next
/// cycle uses; `deadline` is when the countdown ends, in nanoseconds.
#[derive(Clone, Copy, Debug, PartialEq)]
pub enum Timer<A> {
    /// Waiting for a command.
    Idle,
    /// About to start a countdown with `latest`.
    Arming { latest: Params<A> },
    /// Counting down: checking the clock against the deadline.
    Waiting { cycle: Params<A>, latest: Params<A>, deadline: u128 },
    /// Counting down: looking for a command.
    Polling { cycle: Params<A>, latest: Params<A>, deadline: u128 },
    /// Counting down: about to report the time left.
    Counting { cycle: Params<A>, latest: Params<A>, deadline: u128 },
    /// Animating: checking whether the laps are done.
    Animating { cycle: Params<A>, latest: Params<A> },
    /// Animating: looking for a command before drawing a frame.
    Framing { cycle: Params<A>, latest: Params<A> },
    /// The command channel is closed; the timer has ended.
    Finished,
}

/// The end of a countdown of `interval_s` seconds started at `now`.
pub open spec fn deadline_after(now: u64, interval_s: u64) -> u128 {
    (now + interval_s * NANOS_PER_SEC) as u128
}

/// Whole seconds from `now` to `deadline`, zero once it has passed (at most
/// `u64::MAX`).
pub open spec fn remaining_secs(deadline: u128, now: u64) -> u64 {
    let r: int = if deadline > now {
        (deadline - now) / (NANOS_PER_SEC as int)
    } else {
        0
    };
    if r > u64::MAX {
        u64::MAX
    } else {
        r as u64
    }
}

/// The effects of drawing one animation frame.
pub open spec fn frame_effects<A>(anim: A) -> Seq<Effect<A>> {
    seq![
        Effect::ReportRunning,
        Effect::SetTooltip(Tooltip::Relaxing),
        Effect::RenderFrame(anim),
        Effect::Sleep(FRAME_SLEEP_MS),
    ]
}

/// The effects of a stop command during a countdown.
pub open spec fn stop_effects<A>() -> Seq<Effect<A>> {
    seq![Effect::ReportIdle, Effect::SetTooltip(Tooltip::NotStarted)]
}

/// The next state and the effects for an event in a state.  An event that
/// does not answer what the state waits for changes nothing.
pub open spec fn transition<A>(s: Timer<A>, e: Event<A>) -> (Timer<A>, Seq<Effect<A>>) {
    match s {
        Timer::Idle => match e {
            Event::Received(Cmd::Start(p)) => (Timer::Arming { latest: p }, seq![]),
            Event::Received(Cmd::Stop) => (Timer::Idle, seq![Effect::ReportIdle]),
            Event::Disconnected => (Timer::Finished, seq![]),
            _ => (s, seq![]),
        },
        Timer::Arming { latest } => match e {
            Event::Clock(now) => (
                Timer::Waiting {
                    cycle: latest,
                    latest,
                    deadline: deadline_after(now, latest.interval_s),
                },
                seq![],
            ),
            _ => (s, seq![]),
        },
        Timer::Waiting { cycle, latest, deadline } => match e {
            Event::Clock(now) => if (now as u128) < deadline {
                (Timer::Polling { cycle, latest, deadline }, seq![])
            } else {
                (Timer::Animating { cycle, latest }, seq![Effect::OpenOverlay(cycle.anim)])
            },
            _ => (s, seq![]),
        },
        Timer::Polling { cycle, latest, deadline } => match e {
            Event::Polled(Some(Cmd::Stop)) => (Timer::Idle, stop_effects()),
            Event::Polled(Some(Cmd::Start(p))) => (
                Timer::Counting { cycle, latest: p, deadline },
                seq![],
            ),
            Event::Polled(None) => (Timer::Counting { cycle, latest, deadline }, seq![]),
            _ => (s, seq![]),
        },
        Timer::Counting { cycle, latest, deadline } => match e {
            Event::Clock(now) => {
                let r: u64 = remaining_secs(deadline, now);
                (
                    Timer::Waiting { cycle, latest, deadline },
                    seq![
                        Effect::ReportWaiting(r),
                        Effect::SetTooltip(Tooltip::Countdown(r)),
                        Effect::Sleep(COUNTDOWN_SLEEP_MS),
                    ],
                )
            },
            _ => (s, seq![]),
        },
        Timer::Animating { cycle, latest } => match e {
            Event::AnimationOver(true) => (Timer::Arming { latest }, seq![Effect::CloseOverlay]),
            Event::AnimationOver(false) => (Timer::Framing { cycle, latest }, seq![]),
            _ => (s, seq![]),
        },
        Timer::Framing { cycle, latest } => match e {
            Event::Polled(Some(Cmd::Stop)) => (
                Timer::Idle,
                seq![Effect::CloseOverlay].add(stop_effects()),
            ),
            Event::Polled(Some(Cmd::Start(p))) => (
                Timer::Animating { cycle, latest: p },
                frame_effects(cycle.anim),
            ),
            Event::Polled(None) => (Timer::Animating { cycle, latest }, frame_effects(cycle.anim)),
            _ => (s, seq![]),
        },
        Timer::Finished => (s, seq![]),
    }
}

/// What a state waits for.
pub open spec fn awaits<A>(s: Timer<A>) -> Next {
    match s {
        Timer::Idle => Next::Receive,
        Timer::Arming { .. } => Next::ReadClock,
        Timer::Waiting { .. } => Next::ReadClock,
        Timer::Polling { .. } => Next::Poll,
        Timer::Counting { .. } => Next::ReadClock,
        Timer::Animating { .. } => Next::CheckAnimation,
        Timer::Framing { .. } => Next::Poll,
        Timer::Finished => Next::Exit,
    }
}

/// Whole seconds from `now` to `deadline`, zero once it has passed.
fn seconds_left(deadline: u128, now: u64) -> (res: u64)
    ensures
        res == remaining_secs(deadline, now),
{
    let now128: u128 = now as u128;
    let r: u128 = if deadline > now128 {
        (deadline - now128) / (NANOS_PER_SEC as u128)
    } else {
        0
    };
    if r > u64::MAX as u128 {
        u64::MAX
    } else {
        r as u64
    }
}

impl<A: Copy> Timer<A> {
    /// A timer waiting for its first command.
    pub fn new() -> (res: (Timer<A>, Next))
        ensures
            res.0 == Timer::<A>::Idle,
            res.1 == Next::Receive,
    {
        (Timer::Idle, Next::Receive)
    }

    /// The next state, the effects to perform in order, and what to do
    /// next, for an event observed in this state.
    pub fn step(self, event: Event<A>) -> (res: (Timer<A>, Vec<Effect<A>>, Next))
        ensures
            (res.0, res.1@) == transition(self, event),
            res.2 == awaits(res.0),
    {
        let none: Vec<Effect<A>> = Vec::new();
        match self {
            Timer::Idle => match event {
                Event::Received(Cmd::Start(p)) => (Timer::Arming { latest: p }, none, Next::ReadClock),
                Event::Received(Cmd::Stop) => (Timer::Idle, vec![Effect::ReportIdle], Next::Receive),
                Event::Disconnected => (Timer::Finished, none, Next::Exit),
                _ => (self, none, Next::Receive),
            },
            Timer::Arming { latest } => match event {
                Event::Clock(now) => {
                    let deadline: u128 = now as u128 + latest.interval_s as u128 * NANOS_PER_SEC as u128;
                    (Timer::Waiting { cycle: latest, latest, deadline }, none, Next::ReadClock)
                },
                _ => (self, none, Next::ReadClock),
            },
            Timer::Waiting { cycle, latest, deadline } => match event {
                Event::Clock(now) => if (now as u128) < deadline {
                    (Timer::Polling { cycle, latest, deadline }, none, Next::Poll)
                } else {
                    (
                        Timer::Animating { cycle, latest },
                        vec![Effect::OpenOverlay(cycle.anim)],
                        Next::CheckAnimation,
                    )
                },
                _ => (self, none, Next::ReadClock),
            },
            Timer::Polling { cycle, latest, deadline } => match event {
                Event::Polled(Some(Cmd::Stop)) => (
                    Timer::Idle,
                    vec![Effect::ReportIdle, Effect::SetTooltip(Tooltip::NotStarted)],
                    Next::Receive,
                ),
                Event::Polled(Some(Cmd::Start(p))) => (
                    Timer::Counting { cycle, latest: p, deadline },
                    none,
                    Next::ReadClock,
                ),
                Event::Polled(None) => (
                    Timer::Counting { cycle, latest, deadline },
                    none,
                    Next::ReadClock,
                ),
                _ => (self, none, Next::Poll),
            },
            Timer::Counting { cycle, latest, deadline } => match event {
                Event::Clock(now) => {
                    let r: u64 = seconds_left(deadline, now);
                    (
                        Timer::Waiting { cycle, latest, deadline },
                        vec![
                            Effect::ReportWaiting(r),
                            Effect::SetTooltip(Tooltip::Countdown(r)),
                            Effect::Sleep(COUNTDOWN_SLEEP_MS),
                        ],
                        Next::ReadClock,
                    )
                },
                _ => (self, none, Next::ReadClock),
            },
            Timer::Animating { cycle, latest } => match event {
                Event::AnimationOver(true) => (
                    Timer::Arming { latest },
                    vec![Effect::CloseOverlay],
                    Next::ReadClock,
                ),
                Event::AnimationOver(false) => (Timer::Framing { cycle, latest }, none, Next::Poll),
                _ => (self, none, Next::CheckAnimation),
            },
            Timer::Framing { cycle, latest } => match event {
                Event::Polled(Some(Cmd::Stop)) => (
                    Timer::Idle,
                    vec![
                        Effect::CloseOverlay,
                        Effect::ReportIdle,
                        Effect::SetTooltip(Tooltip::NotStarted),
                    ],
                    Next::Receive,
                ),
                Event::Polled(Some(Cmd::Start(p))) => (
                    Timer::Animating { cycle, latest: p },
                    Self::frame(cycle.anim),
                    Next::CheckAnimation,
                ),
                Event::Polled(None) => (
                    Timer::Animating { cycle, latest },
                    Self::frame(cycle.anim),
                    Next::CheckAnimation,
                ),
                _ => (self, none, Next::Poll),
            },
            Timer::Finished => (self, none, Next::Exit),
        }
    }

    fn frame(anim: A) -> (res: Vec<Effect<A>>)
        ensures
            res@ == frame_effects(anim),
    {
        vec![
            Effect::ReportRunning,
            Effect::SetTooltip(Tooltip::Relaxing),
            Effect::RenderFrame(anim),
            Effect::Sleep(FRAME_SLEEP_MS),
        ]
    }
}

/// Whether the overlay window is shown in a state.
pub open spec fn overlay_shown<A>(s: Timer<A>) -> bool {
    s is Animating || s is Framing
}

/// Whether some effect opens the overlay.
pub open spec fn opens_overlay<A>(fx: Seq<Effect<A>>) -> bool {
    exists|i: int| 0 <= i < fx.len() && fx[i] is OpenOverlay
}

/// Whether some effect closes the overlay.
pub open spec fn closes_overlay<A>(fx: Seq<Effect<A>>) -> bool {
    exists|i: int| 0 <= i < fx.len() && fx[i] is CloseOverlay
}

/// The parameters of the running cycle, if a cycle is running.
pub open spec fn cycle_of<A>(s: Timer<A>) -> Option<Params<A>> {
    match s {
        Timer::Waiting { cycle, .. } => Some(cycle),
        Timer::Polling { cycle, .. } => Some(cycle),
        Timer::Counting { cycle, .. } => Some(cycle),
        Timer::Animating { cycle, .. } => Some(cycle),
        Timer::Framing { cycle, .. } => Some(cycle),
        _ => None,
    }
}

/// The end of the running countdown, if one is running.
pub open spec fn deadline_of<A>(s: Timer<A>) -> Option<u128> {
    match s {
        Timer::Waiting { deadline, .. } => Some(deadline),
        Timer::Polling { deadline, .. } => Some(deadline),
        Timer::Counting { deadline, .. } => Some(deadline),
        _ => None,
    }
}

/// The parameters the next cycle will use, if the timer is started.
pub open spec fn latest_of<A>(s: Timer<A>) -> Option<Params<A>> {
    match s {
        Timer::Arming { latest } => Some(latest),
        Timer::Waiting { latest, .. } => Some(latest),
        Timer::Polling { latest, .. } => Some(latest),
        Timer::Counting { latest, .. } => Some(latest),
        Timer::Animating { latest, .. } => Some(latest),
        Timer::Framing { latest, .. } => Some(latest),
        _ => None,
    }
}

/// Whether an event answers what a state waits for.
pub open spec fn answers<A>(s: Timer<A>, e: Event<A>) -> bool {
    match awaits(s) {
        Next::Receive => e is Received || e is Disconnected,
        Next::ReadClock => e is Clock,
        Next::Poll => e is Polled,
        Next::CheckAnimation => e is AnimationOver,
        Next::Exit => false,
    }
}

/// The overlay is opened exactly when the animation starts and closed
/// exactly when it ends: every step that shows it opens it, every step
/// that leaves it closes it, and no other step touches it.
pub proof fn lemma_overlay_shown_exactly_while_animating<A>(s: Timer<A>, e: Event<A>)
    ensures
        opens_overlay(transition(s, e).1) <==> (!overlay_shown(s) && overlay_shown(
            transition(s, e).0,
        )),
        closes_overlay(transition(s, e).1) <==> (overlay_shown(s) && !overlay_shown(
            transition(s, e).0,
        )),
{
    let fx = transition(s, e).1;
    if opens_overlay(fx) {
        let i: int = choose|i: int| 0 <= i < fx.len() && fx[i] is OpenOverlay;
        assert(fx[i] is OpenOverlay);
    }
    if closes_overlay(fx) {
        let i: int = choose|i: int| 0 <= i < fx.len() && fx[i] is CloseOverlay;
        assert(fx[i] is CloseOverlay);
    }
    if !overlay_shown(s) && overlay_shown(transition(s, e).0) {
        assert(fx[0] is OpenOverlay);
    }
    if overlay_shown(s) && !overlay_shown(transition(s, e).0) {
        assert(fx[0] is CloseOverlay);
    }
}

/// A stop command ends whatever the timer is doing: it goes back to
/// waiting for a command, publishes the status "idle", and, if a cycle
/// was running, sets the tooltip to "not started" (closing the overlay if
/// it was shown).
pub proof fn lemma_stop_goes_idle<A>(s: Timer<A>)
    requires
        s is Idle || s is Polling || s is Framing,
    ensures
        ({
            let e = if s is Idle {
                Event::Received(Cmd::Stop)
            } else {
                Event::Polled(Some(Cmd::Stop))
            };
            let (t, fx) = transition(s, e);
            &&& t == Timer::<A>::Idle
            &&& fx.contains(Effect::ReportIdle)
            &&& !(s is Idle) ==> fx.last() == Effect::<A>::SetTooltip(Tooltip::NotStarted)
            &&& overlay_shown(s) ==> fx[0] == Effect::<A>::CloseOverlay
        }),
{
    let e = if s is Idle {
        Event::Received(Cmd::Stop)
    } else {
        Event::Polled(Some(Cmd::Stop))
    };
    let fx = transition(s, e).1;
    if s is Framing {
        assert(fx[1] == Effect::<A>::ReportIdle);
    } else {
        assert(fx[0] == Effect::<A>::ReportIdle);
    }
}

/// A start command received while a cycle runs changes neither that
/// cycle's parameters nor its deadline; it only replaces the parameters
/// of the cycles that follow.
pub proof fn lemma_start_takes_effect_next_cycle<A>(s: Timer<A>, p: Params<A>)
    requires
        s is Polling || s is Framing,
    ensures
        cycle_of(transition(s, Event::Polled(Some(Cmd::Start(p)))).0) == cycle_of(s),
        latest_of(transition(s, Event::Polled(Some(Cmd::Start(p)))).0) == Some(p),
        s is Polling ==> deadline_of(transition(s, Event::Polled(Some(Cmd::Start(p)))).0)
            == deadline_of(s),
{
}

/// While a cycle runs, no step changes its parameters or its deadline;
/// a cycle that ends by itself hands on the parameters of the most recent
/// start command, and the next cycle is armed with them.
pub proof fn lemma_cycle_is_stable<A>(s: Timer<A>, e: Event<A>)
    ensures
        ({
            let t = transition(s, e).0;
            &&& (cycle_of(s) is Some && cycle_of(t) is Some) ==> cycle_of(t) == cycle_of(s)
            &&& (deadline_of(s) is Some && deadline_of(t) is Some) ==> deadline_of(t)
                == deadline_of(s)
            &&& (s is Animating && t is Arming) ==> latest_of(t) == latest_of(s)
            &&& (s is Arming && t is Waiting) ==> cycle_of(t) == latest_of(s)
        }),
{
}

/// An event that does not answer what the state waits for changes nothing
/// and has no effect.
pub proof fn lemma_unanswered_event_ignored<A>(s: Timer<A>, e: Event<A>)
    requires
        !answers(s, e),
    ensures
        transition(s, e) == (s, Seq::<Effect<A>>::empty()),
{
    assert(transition(s, e).1 =~= Seq::<Effect<A>>::empty());
}

/// Once the command channel is closed the timer stays finished and does
/// nothing; it only finishes while waiting for a command.
pub proof fn lemma_finished_is_final<A>(s: Timer<A>, e: Event<A>)
    ensures
        s is Finished ==> transition(s, e) == (s, Seq::<Effect<A>>::empty()),
        (!(s is Finished) && transition(s, e).0 is Finished) ==> (s is Idle && e is Disconnected),
{
    assert(transition(s, e).1 =~= Seq::<Effect<A>>::empty() || !(s is Finished));
}

/// The countdown started at `start` for `interval_s` seconds never shows
/// more than `interval_s` seconds, and never goes up as the clock moves on.
pub proof fn lemma_countdown_bounded_and_monotone(
    start: u64,
    interval_s: u64,
    now1: u64,
    now2: u64,
)
    requires
        start <= now1 <= now2,
    ensures
        remaining_secs(deadline_after(start, interval_s), now1) <= interval_s,
        remaining_secs(deadline_after(start, interval_s), now2) <= remaining_secs(
            deadline_after(start, interval_s),
            now1,
        ),
{
    let d: int = deadline_after(start, interval_s) as int;
    let n: int = NANOS_PER_SEC as int;
    if d > now1 {
        let x1: int = d - now1;
        assert(x1 <= interval_s * n);
        assert(x1 / n <= interval_s) by {
            vstd::arithmetic::div_mod::lemma_div_is_ordered(x1, interval_s * n, n);
            vstd::arithmetic::div_mod::lemma_div_multiples_vanish(interval_s as int, n);
        }
        if d > now2 {
            vstd::arithmetic::div_mod::lemma_div_is_ordered(d - now2, x1, n);
        }
    }
}

/// Each countdown step reports the same number in the status and in the
/// tray tooltip, and that number is the whole seconds left until the
/// deadline: zero once it has passed, otherwise the count `r` with
/// `r` seconds at most and `r + 1` seconds more than the time left (capped
/// at `u64::MAX`).  The step then sleeps a second and keeps the cycle.
pub proof fn lemma_countdown_step_reports_seconds_left<A>(
    cycle: Params<A>,
    latest: Params<A>,
    deadline: u128,
    now: u64,
)
    ensures
        ({
            let (t, fx) = transition(
                Timer::Counting { cycle, latest, deadline },
                Event::Clock(now),
            );
            let n = NANOS_PER_SEC as int;
            &&& t == Timer::Waiting { cycle, latest, deadline }
            &&& fx.len() == 3
            &&& fx[2] == Effect::<A>::Sleep(COUNTDOWN_SLEEP_MS)
            &&& match fx[0] {
                Effect::ReportWaiting(r) => {
                    &&& fx[1] == Effect::<A>::SetTooltip(Tooltip::Countdown(r))
                    &&& deadline <= now ==> r == 0
                    &&& (now < deadline && deadline - now < (u64::MAX + 1) * n) ==> (r * n
                        <= deadline - now < (r + 1) * n)
                    &&& (now < deadline && deadline - now >= (u64::MAX + 1) * n) ==> r
                        == u64::MAX
                },
                _ => false,
            }
        }),
{
    let n = NANOS_PER_SEC as int;
    if deadline > now {
        let x: int = deadline - now;
        assert(x == n * (x / n) + x % n && 0 <= x % n < n) by {
            vstd::arithmetic::div_mod::lemma_fundamental_div_mod(x, n);
        }
        if x < (u64::MAX + 1) * n {
            assert(x / n <= u64::MAX) by {
                vstd::arithmetic::div_mod::lemma_div_is_ordered(x, (u64::MAX + 1) * n - 1, n);
            }
        } else {
            assert(x / n >= u64::MAX + 1) by {
                vstd::arithmetic::div_mod::lemma_div_is_ordered((u64::MAX + 1) * n, x, n);
                vstd::arithmetic::div_mod::lemma_div_multiples_vanish(u64::MAX + 1, n);
            }
        }
    }
}

} // verus!
