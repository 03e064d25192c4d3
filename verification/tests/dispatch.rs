use gl_bootstrap::dispatch::{Action, Dispatcher, Phase, Signal};

const QUIET: [Signal; 4] = [
    Signal::CloseRequested,
    Signal::Idle,
    Signal::RedrawRequested,
    Signal::Other,
];

#[test]
fn setup_without_a_window_starts_in_no_window() {
    let d = Dispatcher::new(false);
    assert_eq!(d.phase, Phase::NoWindow);
    assert!(!d.is_running());
}

#[test]
fn setup_with_a_window_starts_in_created() {
    let d = Dispatcher::new(true);
    assert_eq!(d.phase, Phase::Created);
    assert!(!d.is_running());
}

#[test]
fn resume_without_a_window_makes_one_and_activates() {
    let mut d = Dispatcher::new(false);
    assert_eq!(
        d.handle_event(Signal::Resumed),
        Action::Activate { create_window: true }
    );
    assert_eq!(d.phase, Phase::Running);
    assert!(d.is_running());
}

#[test]
fn resume_with_a_window_activates_on_it() {
    let mut d = Dispatcher::new(true);
    assert_eq!(
        d.handle_event(Signal::Resumed),
        Action::Activate { create_window: false }
    );
    assert_eq!(d.phase, Phase::Running);
}

#[test]
fn second_resume_is_fatal_and_keeps_the_triple() {
    let mut d = Dispatcher::new(false);
    d.handle_event(Signal::Resumed);
    assert_eq!(d.handle_event(Signal::Resumed), Action::Fatal);
    assert_eq!(d.phase, Phase::Running);
}

#[test]
fn close_ends_the_loop_in_every_phase() {
    for phase in [Phase::NoWindow, Phase::Created, Phase::Running] {
        let mut d = Dispatcher { phase };
        assert_eq!(d.handle_event(Signal::CloseRequested), Action::Exit);
        assert_eq!(d.phase, phase);
    }
}

#[test]
fn idle_requests_a_redraw_only_while_running() {
    let mut d = Dispatcher::new(false);
    assert_eq!(d.handle_event(Signal::Idle), Action::Nothing);
    let mut d = Dispatcher::new(true);
    assert_eq!(d.handle_event(Signal::Idle), Action::Nothing);
    d.handle_event(Signal::Resumed);
    assert_eq!(d.handle_event(Signal::Idle), Action::RequestRedraw);
    assert_eq!(d.phase, Phase::Running);
}

#[test]
fn redraw_and_other_events_do_nothing() {
    for phase in [Phase::NoWindow, Phase::Created, Phase::Running] {
        for signal in [Signal::RedrawRequested, Signal::Other] {
            let mut d = Dispatcher { phase };
            assert_eq!(d.handle_event(signal), Action::Nothing);
            assert_eq!(d.phase, phase);
        }
    }
}

#[test]
fn only_a_resume_leads_to_running() {
    for start in [Phase::NoWindow, Phase::Created] {
        let mut d = Dispatcher { phase: start };
        for _ in 0..3 {
            for signal in QUIET {
                d.handle_event(signal);
                assert_eq!(d.phase, start);
            }
        }
        d.handle_event(Signal::Resumed);
        assert_eq!(d.phase, Phase::Running);
    }
}

#[test]
fn one_activation_over_a_whole_run() {
    let signals = [
        Signal::Other,
        Signal::Idle,
        Signal::Resumed,
        Signal::Idle,
        Signal::RedrawRequested,
        Signal::Other,
        Signal::Idle,
        Signal::CloseRequested,
    ];
    let mut d = Dispatcher::new(false);
    let actions: Vec<Action> = signals.iter().map(|s| d.handle_event(*s)).collect();
    assert_eq!(
        actions,
        vec![
            Action::Nothing,
            Action::Nothing,
            Action::Activate { create_window: true },
            Action::RequestRedraw,
            Action::Nothing,
            Action::Nothing,
            Action::RequestRedraw,
            Action::Exit,
        ]
    );
    let activations = actions
        .iter()
        .filter(|a| matches!(a, Action::Activate { .. }))
        .count();
    assert_eq!(activations, 1);
    assert_eq!(d.phase, Phase::Running);
}

#[test]
fn running_is_never_left() {
    let mut d = Dispatcher { phase: Phase::Running };
    for signal in QUIET {
        d.handle_event(signal);
        assert_eq!(d.phase, Phase::Running);
    }
}
