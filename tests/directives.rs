use resman::app::{App, CoreReading, ProcessAction, Snapshot};
use resman::directive::{directive_outcome, may_send, DirectiveResult};
use resman::process::ProcessRecord;
use resman::toast::ToastLevel;

fn one_process() -> Snapshot {
    Snapshot {
        cpu_usage: 0,
        cores: vec![CoreReading { usage: 0, frequency: 0 }],
        used_memory: 0,
        total_memory: 0,
        processes: vec![ProcessRecord {
            pid: 4242,
            name: "worker".to_string(),
            parent: Some(1),
            status: "Run".to_string(),
            exe: None,
            cwd: None,
            cpu_usage: 100,
            memory: 0,
            virtual_memory: 0,
            disk_read: 0,
            disk_written: 0,
            run_time: 0,
        }],
        gpu: None,
    }
}

#[test]
fn outcome_texts_name_the_process() {
    assert_eq!(
        directive_outcome(42, ProcessAction::Kill, false, DirectiveResult::Done),
        Ok("Process 42 killed".to_string())
    );
    assert_eq!(
        directive_outcome(7, ProcessAction::Suspend, true, DirectiveResult::Done),
        Ok("Process 7 suspended".to_string())
    );
    assert_eq!(
        directive_outcome(7, ProcessAction::Resume, true, DirectiveResult::Failed),
        Err("Process 7 could not be resumed".to_string())
    );
    assert_eq!(
        directive_outcome(99, ProcessAction::Kill, true, DirectiveResult::NoSuchProcess),
        Err("Process 99 no longer exists".to_string())
    );
    assert_eq!(
        directive_outcome(5, ProcessAction::Resume, true, DirectiveResult::Unsupported),
        Err("Suspend and resume are not supported on this platform".to_string())
    );
}

#[test]
fn pause_without_support_fails_before_sending() {
    assert!(!may_send(ProcessAction::Suspend, false));
    assert!(!may_send(ProcessAction::Resume, false));
    assert!(may_send(ProcessAction::Kill, false));
    assert!(may_send(ProcessAction::Resume, true));
    assert_eq!(
        directive_outcome(5, ProcessAction::Suspend, false, DirectiveResult::Done),
        Err("Suspend and resume are not supported on this platform".to_string())
    );
}

#[test]
fn resolve_through_the_engine() {
    let mut app = App::new(one_process(), 0);
    assert_eq!(app.directive_to_send(true), None);
    app.resolve(true, DirectiveResult::Done, 10);
    assert!(app.toast.is_none());

    app.next_process();
    app.request_action(ProcessAction::Suspend);
    assert_eq!(app.directive_to_send(false), None);
    assert_eq!(app.directive_to_send(true), Some((4242, ProcessAction::Suspend)));
    app.resolve(false, DirectiveResult::Unsupported, 20);
    let t = app.toast.clone().unwrap();
    assert_eq!(t.level, ToastLevel::Error);
    assert!(app.confirmation.is_none());

    app.request_action(ProcessAction::Kill);
    assert_eq!(app.directive_to_send(false), Some((4242, ProcessAction::Kill)));
    app.resolve(false, DirectiveResult::Done, 30);
    let t = app.toast.clone().unwrap();
    assert_eq!(t.level, ToastLevel::Success);
    assert_eq!(t.message, "Process 4242 killed");
    assert_eq!(t.expires_at, 3030);
    assert!(app.confirmation.is_none());
}

#[test]
fn fresh_state_starts_at_top() {
    let app = App::new(one_process(), 0);
    assert_eq!(app.scroll_offset, 0);
    assert_eq!(app.selected_process, None);
}
