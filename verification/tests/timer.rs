use zhuanzhuan::timer::{Cmd, Effect, Event, Next, Params, Timer, Tooltip};

type A = (f32, f32);
const SEC: u64 = 1_000_000_000;

fn p(interval_s: u64, lap: f32) -> Params<A> {
    Params { interval_s, anim: (lap, 3.0) }
}

fn run(t: Timer<A>, e: Event<A>) -> (Timer<A>, Vec<Effect<A>>, Next) {
    t.step(e)
}

#[test]
fn starts_idle_waiting_for_a_command() {
    let (t, next) = Timer::<A>::new();
    assert_eq!(t, Timer::Idle);
    assert_eq!(next, Next::Receive);
}

#[test]
fn full_cycle() {
    let (t, _) = Timer::<A>::new();
    let (t, fx, next) = run(t, Event::Received(Cmd::Start(p(2, 8.0))));
    assert!(fx.is_empty());
    assert_eq!(next, Next::ReadClock);
    // Arming at 10 s: the deadline is 12 s.
    let (t, fx, next) = run(t, Event::Clock(10 * SEC));
    assert!(fx.is_empty());
    assert_eq!(next, Next::ReadClock);
    assert_eq!(t, Timer::Waiting { cycle: p(2, 8.0), latest: p(2, 8.0), deadline: 12 * SEC as u128 });
    // Still before the deadline: look for a command.
    let (t, fx, next) = run(t, Event::Clock(10 * SEC + 1));
    assert!(fx.is_empty());
    assert_eq!(next, Next::Poll);
    let (t, fx, next) = run(t, Event::Polled(None));
    assert!(fx.is_empty());
    assert_eq!(next, Next::ReadClock);
    // 1.5 s left: reported as 1 whole second.
    let (t, fx, next) = run(t, Event::Clock(10 * SEC + SEC / 2));
    assert_eq!(
        fx,
        vec![
            Effect::ReportWaiting(1),
            Effect::SetTooltip(Tooltip::Countdown(1)),
            Effect::Sleep(1000)
        ]
    );
    assert_eq!(next, Next::ReadClock);
    // The deadline has passed: the light starts.
    let (t, fx, next) = run(t, Event::Clock(12 * SEC));
    assert_eq!(fx, vec![Effect::OpenOverlay((8.0, 3.0))]);
    assert_eq!(next, Next::CheckAnimation);
    let (t, fx, next) = run(t, Event::AnimationOver(false));
    assert!(fx.is_empty());
    assert_eq!(next, Next::Poll);
    let (t, fx, next) = run(t, Event::Polled(None));
    assert_eq!(
        fx,
        vec![
            Effect::ReportRunning,
            Effect::SetTooltip(Tooltip::Relaxing),
            Effect::RenderFrame((8.0, 3.0)),
            Effect::Sleep(16)
        ]
    );
    assert_eq!(next, Next::CheckAnimation);
    // The laps are done: the overlay goes and the next countdown is armed.
    let (t, fx, next) = run(t, Event::AnimationOver(true));
    assert_eq!(fx, vec![Effect::CloseOverlay]);
    assert_eq!(next, Next::ReadClock);
    assert_eq!(t, Timer::Arming { latest: p(2, 8.0) });
}

#[test]
fn zero_interval_starts_the_light_at_once() {
    let (t, _) = Timer::<A>::new();
    let (t, _, _) = run(t, Event::Received(Cmd::Start(p(0, 1.0))));
    let (t, _, _) = run(t, Event::Clock(5));
    let (_, fx, next) = run(t, Event::Clock(5));
    assert_eq!(fx, vec![Effect::OpenOverlay((1.0, 3.0))]);
    assert_eq!(next, Next::CheckAnimation);
}

#[test]
fn stop_during_countdown() {
    let t = Timer::Polling { cycle: p(60, 8.0), latest: p(60, 8.0), deadline: 100 };
    let (t, fx, next) = run(t, Event::Polled(Some(Cmd::Stop)));
    assert_eq!(t, Timer::Idle);
    assert_eq!(fx, vec![Effect::ReportIdle, Effect::SetTooltip(Tooltip::NotStarted)]);
    assert_eq!(next, Next::Receive);
}

#[test]
fn stop_during_animation_closes_overlay() {
    let t = Timer::Framing { cycle: p(60, 8.0), latest: p(60, 8.0) };
    let (t, fx, next) = run(t, Event::Polled(Some(Cmd::Stop)));
    assert_eq!(t, Timer::Idle);
    assert_eq!(
        fx,
        vec![Effect::CloseOverlay, Effect::ReportIdle, Effect::SetTooltip(Tooltip::NotStarted)]
    );
    assert_eq!(next, Next::Receive);
}

#[test]
fn stop_while_idle_reports_idle() {
    let (t, fx, next) = run(Timer::Idle, Event::Received(Cmd::Stop));
    assert_eq!(t, Timer::Idle);
    assert_eq!(fx, vec![Effect::ReportIdle]);
    assert_eq!(next, Next::Receive);
}

#[test]
fn restart_during_cycle_applies_to_next_cycle() {
    let t = Timer::Polling { cycle: p(60, 8.0), latest: p(60, 8.0), deadline: 100 };
    let (t, _, _) = run(t, Event::Polled(Some(Cmd::Start(p(5, 2.0)))));
    assert_eq!(t, Timer::Counting { cycle: p(60, 8.0), latest: p(5, 2.0), deadline: 100 });
    let (t, _, _) = run(t, Event::Clock(200));
    let (t, fx, _) = run(t, Event::Clock(200));
    // The running cycle still shows its own animation.
    assert_eq!(fx, vec![Effect::OpenOverlay((8.0, 3.0))]);
    let (t, _, _) = run(t, Event::AnimationOver(false));
    let (t, fx, _) = run(t, Event::Polled(Some(Cmd::Start(p(7, 4.0)))));
    assert_eq!(fx[2], Effect::RenderFrame((8.0, 3.0)));
    let (t, _, _) = run(t, Event::AnimationOver(true));
    assert_eq!(t, Timer::Arming { latest: p(7, 4.0) });
    let (t, _, _) = run(t, Event::Clock(SEC));
    assert_eq!(t, Timer::Waiting { cycle: p(7, 4.0), latest: p(7, 4.0), deadline: 8 * SEC as u128 });
}

#[test]
fn countdown_after_deadline_reports_zero() {
    let t = Timer::Counting { cycle: p(1, 8.0), latest: p(1, 8.0), deadline: 5 };
    let (_, fx, _) = run(t, Event::Clock(9));
    assert_eq!(fx[0], Effect::ReportWaiting(0));
}

#[test]
fn closed_channel_ends_the_timer() {
    let (t, fx, next) = run(Timer::Idle, Event::Disconnected);
    assert_eq!(t, Timer::Finished);
    assert!(fx.is_empty());
    assert_eq!(next, Next::Exit);
    let (t, fx, next) = run(t, Event::Received(Cmd::Stop));
    assert_eq!(t, Timer::Finished);
    assert!(fx.is_empty());
    assert_eq!(next, Next::Exit);
}

#[test]
fn unexpected_event_changes_nothing() {
    let t = Timer::Animating { cycle: p(3, 1.0), latest: p(3, 1.0) };
    let (u, fx, next) = run(t, Event::Clock(1));
    assert_eq!(u, t);
    assert!(fx.is_empty());
    assert_eq!(next, Next::CheckAnimation);
}

#[test]
fn huge_interval_does_not_overflow() {
    let (t, _) = Timer::<A>::new();
    let (t, _, _) = run(t, Event::Received(Cmd::Start(p(u64::MAX, 1.0))));
    let (t, _, _) = run(t, Event::Clock(u64::MAX));
    let (t, fx, _) = run(t, Event::Clock(u64::MAX));
    assert!(fx.is_empty());
    let (t, _, _) = run(t, Event::Polled(None));
    let (_, fx, _) = run(t, Event::Clock(u64::MAX));
    assert_eq!(fx[0], Effect::ReportWaiting(u64::MAX));
}

#[test]
fn countdown_never_exceeds_interval_and_never_rises() {
    let start = 3 * SEC + 17;
    let interval = 90;
    let mut t = Timer::Arming { latest: p(interval, 8.0) };
    let (u, _, _) = t.step(Event::Clock(start));
    t = u;
    let mut last = interval;
    for k in 0..200u64 {
        let now = start + k * (SEC / 2) + 3;
        let (u, fx, next) = t.step(Event::Clock(now));
        if next != Next::Poll {
            assert_eq!(fx, vec![Effect::OpenOverlay((8.0, 3.0))]);
            assert!(now >= start + interval * SEC);
            break;
        }
        let (u, _, _) = u.step(Event::Polled(None));
        let (u, fx, _) = u.step(Event::Clock(now));
        match fx[0] {
            Effect::ReportWaiting(r) => {
                assert!(r <= interval);
                assert!(r <= last);
                last = r;
            }
            _ => panic!("expected a countdown report"),
        }
        t = u;
    }
}

#[test]
fn overlay_opened_and_closed_once_per_animation() {
    let mut t = Timer::Idle;
    let mut shown = false;
    let events = vec![
        Event::Received(Cmd::Start(p(0, 1.0))),
        Event::Clock(0),
        Event::Clock(0),
        Event::AnimationOver(false),
        Event::Polled(None),
        Event::AnimationOver(true),
        Event::Clock(1),
        Event::Clock(1),
        Event::AnimationOver(false),
        Event::Polled(Some(Cmd::Stop)),
    ];
    let mut opens = 0;
    for e in events {
        let (u, fx, _) = t.step(e);
        for f in fx {
            match f {
                Effect::OpenOverlay(_) => {
                    assert!(!shown);
                    shown = true;
                    opens += 1;
                }
                Effect::CloseOverlay => {
                    assert!(shown);
                    shown = false;
                }
                _ => {}
            }
        }
        t = u;
    }
    assert_eq!(opens, 2);
    assert!(!shown);
    assert_eq!(t, Timer::Idle);
}
