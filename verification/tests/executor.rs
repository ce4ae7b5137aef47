use blackbox_fuzz::executor::{Directive, Poll, Supervisor, TIME_BUDGET_MS};
use blackbox_fuzz::outcome::Outcome;

fn run(polls: &[Poll]) -> (Supervisor, Vec<Directive>) {
    let mut state = Supervisor::start();
    let mut directives = Vec::new();
    for poll in polls {
        let (next, directive) = state.step(*poll);
        state = next;
        directives.push(directive);
    }
    (state, directives)
}

#[test]
fn budget_is_half_a_second() {
    assert_eq!(TIME_BUDGET_MS, 500);
}

#[test]
fn fresh_run_has_not_overrun() {
    assert_eq!(Supervisor::start(), Supervisor { overran: false });
}

#[test]
fn target_exiting_with_code_zero_is_normal_zero() {
    let (_, directives) = run(&[
        Poll::Running { elapsed_ms: 0 },
        Poll::Running { elapsed_ms: 3 },
        Poll::Exited { signal: None, code: Some(0) },
    ]);
    assert_eq!(
        directives,
        vec![Directive::PollAgain, Directive::PollAgain, Directive::Done(Outcome::Normal(0))]
    );
    assert!(!Outcome::Normal(0).is_crash());
}

#[test]
fn target_raising_a_segmentation_fault_is_a_crash() {
    let (_, directives) = run(&[
        Poll::Running { elapsed_ms: 1 },
        Poll::Exited { signal: Some(11), code: None },
    ]);
    assert_eq!(directives[1], Directive::Done(Outcome::Signaled(11)));
    match directives[1] {
        Directive::Done(outcome) => assert!(outcome.is_crash()),
        _ => panic!("the run has ended"),
    }
}

#[test]
fn target_running_past_the_budget_is_killed_and_timed_out() {
    let (state, directives) = run(&[
        Poll::Running { elapsed_ms: 100 },
        Poll::Running { elapsed_ms: 499 },
        Poll::Running { elapsed_ms: 501 },
        Poll::Running { elapsed_ms: 502 },
        Poll::Exited { signal: Some(9), code: None },
    ]);
    assert!(state.overran);
    assert_eq!(
        directives,
        vec![
            Directive::PollAgain,
            Directive::PollAgain,
            Directive::Kill,
            Directive::Kill,
            Directive::Done(Outcome::TimedOut),
        ]
    );
    assert!(!Outcome::TimedOut.is_crash());
}

#[test]
fn kill_comes_exactly_at_the_budget() {
    let start = Supervisor::start();
    assert_eq!(start.step(Poll::Running { elapsed_ms: 499 }), (start, Directive::PollAgain));
    assert_eq!(
        start.step(Poll::Running { elapsed_ms: 500 }),
        (Supervisor { overran: true }, Directive::Kill)
    );
    assert_eq!(
        start.step(Poll::Running { elapsed_ms: u64::MAX }),
        (Supervisor { overran: true }, Directive::Kill)
    );
}

#[test]
fn kill_is_asked_for_again_while_the_target_runs_on() {
    let overrun = Supervisor { overran: true };
    assert_eq!(overrun.step(Poll::Running { elapsed_ms: 600 }), (overrun, Directive::Kill));
    assert_eq!(overrun.step(Poll::Running { elapsed_ms: 0 }), (overrun, Directive::Kill));
}

#[test]
fn overrun_target_is_timed_out_whatever_ended_it() {
    let overrun = Supervisor { overran: true };
    for poll in [
        Poll::Exited { signal: Some(9), code: None },
        Poll::Exited { signal: Some(11), code: None },
        Poll::Exited { signal: None, code: Some(0) },
        Poll::Exited { signal: None, code: None },
    ] {
        assert_eq!(overrun.step(poll), (overrun, Directive::Done(Outcome::TimedOut)));
    }
}

#[test]
fn other_signals_within_budget_are_reported_but_no_crash() {
    let start = Supervisor::start();
    for signal in [1, 4, 6, 8, 9, 15] {
        let (_, directive) = start.step(Poll::Exited { signal: Some(signal), code: None });
        assert_eq!(directive, Directive::Done(Outcome::Signaled(signal)));
        assert!(!Outcome::Signaled(signal).is_crash());
    }
}

#[test]
fn exit_code_within_budget_is_reported() {
    let start = Supervisor::start();
    let (_, directive) = start.step(Poll::Exited { signal: None, code: Some(139) });
    assert_eq!(directive, Directive::Done(Outcome::Normal(139)));
    let (_, directive) = start.step(Poll::Exited { signal: None, code: None });
    assert_eq!(directive, Directive::Done(Outcome::Normal(0)));
}

#[test]
fn exit_at_first_look_needs_no_further_poll() {
    let (state, directives) = run(&[Poll::Exited { signal: None, code: Some(2) }]);
    assert!(!state.overran);
    assert_eq!(directives, vec![Directive::Done(Outcome::Normal(2))]);
}
