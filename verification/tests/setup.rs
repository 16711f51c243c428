use tiny_mcu_helper::setup::{task_named, SetupState, SetupTask};

#[test]
fn no_task_is_done_at_first() {
    let state = SetupState::new();
    assert!(!state.frontend_task);
    assert!(!state.backend_task);
}

#[test]
fn tasks_go_by_their_names() {
    assert_eq!(task_named("frontend"), Some(SetupTask::Frontend));
    assert_eq!(task_named("backend"), Some(SetupTask::Backend));
}

#[test]
fn any_other_name_is_no_task() {
    assert_eq!(task_named(""), None);
    assert_eq!(task_named("Frontend"), None);
    assert_eq!(task_named("backend "), None);
    assert_eq!(task_named("database"), None);
}

#[test]
fn frontend_alone_does_not_reveal_the_main_window() {
    let mut state = SetupState::new();
    assert!(!state.complete(SetupTask::Frontend));
    assert_eq!(state, SetupState { frontend_task: true, backend_task: false });
}

#[test]
fn backend_reveals_the_main_window() {
    let mut state = SetupState::new();
    assert!(state.complete(SetupTask::Backend));
    assert_eq!(state, SetupState { frontend_task: false, backend_task: true });
}

#[test]
fn a_done_task_stays_done() {
    let mut state = SetupState::new();
    assert!(state.complete(SetupTask::Backend));
    assert!(state.complete(SetupTask::Frontend));
    assert!(state.complete(SetupTask::Backend));
    assert_eq!(state, SetupState { frontend_task: true, backend_task: true });
}
