//! The start-up tasks of the host application and the moment at which its
//! main window may be shown.

use vstd::prelude::*;

verus! {

/// Which of the start-up tasks are done.
#[derive(Clone, Copy, Debug, PartialEq, Eq, Structural)]
pub struct SetupState {
    pub frontend_task: bool,
    pub backend_task: bool,
}

/// A start-up task.
#[derive(Clone, Copy, Debug, PartialEq, Eq, Structural)]
pub enum SetupTask {
    Frontend,
    Backend,
}

/// The task that goes by `name`: `"frontend"` or `"backend"`.
pub open spec fn task_of(name: Seq<char>) -> Option<SetupTask> {
    if name == "frontend"@ {
        Some(SetupTask::Frontend)
    } else if name == "backend"@ {
        Some(SetupTask::Backend)
    } else {
        None
    }
}

/// Finds the task that goes by `name`; any other name is no task.
pub fn task_named(name: &str) -> (task: Option<SetupTask>)
    ensures
        task == task_of(name@),
{
    let given = name.to_owned();
    if given == "frontend".to_owned() {
        Some(SetupTask::Frontend)
    } else if given == "backend".to_owned() {
        Some(SetupTask::Backend)
    } else {
        None
    }
}

impl SetupState {
    /// The state in which no task is done.
    pub fn new() -> (state: SetupState)
        ensures
            !state.frontend_task,
            !state.backend_task,
    {
        SetupState { frontend_task: false, backend_task: false }
    }

    /// Records that `task` is done and says whether the main window may now
    /// take the place of the splash screen: it may once the backend task is
    /// done. A task that was done stays done.
    pub fn complete(&mut self, task: SetupTask) -> (reveal: bool)
        ensures
            final(self).frontend_task == (old(self).frontend_task || task == SetupTask::Frontend),
            final(self).backend_task == (old(self).backend_task || task == SetupTask::Backend),
            reveal == final(self).backend_task,
    {
        match task {
            SetupTask::Frontend => {
                self.frontend_task = true;
            },
            SetupTask::Backend => {
                self.backend_task = true;
            },
        }
        self.backend_task
    }
}

} // verus!
