use xdp_guard::lifecycle::{exit_code, start, step, Action, AttachMode, Event, Stage};

#[test]
fn driver_mode_startup_and_clean_shutdown() {
    let (s, a) = start();
    assert_eq!((s, a), (Stage::Unloaded, Action::Load));
    let (s, a) = step(s, Event::LoadSucceeded);
    assert_eq!((s, a), (Stage::Loaded, Action::Attach(AttachMode::Driver)));
    let (s, a) = step(s, Event::AttachSucceeded(AttachMode::Driver));
    assert_eq!((s, a), (Stage::Attached(AttachMode::Driver), Action::Serve));
    let (s, a) = step(s, Event::Interrupted);
    assert_eq!((s, a), (Stage::Detached, Action::Detach));
    assert_eq!(exit_code(s), 0);
}

#[test]
fn generic_mode_fallback() {
    let (s, _) = step(Stage::Unloaded, Event::LoadSucceeded);
    let (s, a) = step(s, Event::AttachRejected(AttachMode::Driver));
    assert_eq!((s, a), (Stage::Loaded, Action::Attach(AttachMode::Generic)));
    let (s, a) = step(s, Event::AttachSucceeded(AttachMode::Generic));
    assert_eq!((s, a), (Stage::Attached(AttachMode::Generic), Action::Serve));
}

#[test]
fn startup_failures_are_fatal() {
    let (s, a) = step(Stage::Unloaded, Event::LoadRejected);
    assert_eq!((s, a), (Stage::Failed, Action::Abort));
    assert_eq!(exit_code(s), 1);
    let (s, a) = step(Stage::Loaded, Event::AttachRejected(AttachMode::Generic));
    assert_eq!((s, a), (Stage::Failed, Action::Abort));
    assert_eq!(exit_code(Stage::Attached(AttachMode::Driver)), 1);
}

#[test]
fn final_stages_ignore_events() {
    for s in [Stage::Detached, Stage::Failed] {
        for e in [Event::LoadSucceeded, Event::Interrupted, Event::AttachSucceeded(AttachMode::Driver)] {
            assert_eq!(step(s, e), (s, Action::Wait));
        }
    }
    assert_eq!(step(Stage::Attached(AttachMode::Driver), Event::LoadSucceeded), (Stage::Attached(AttachMode::Driver), Action::Wait));
}
