use argus::utils::channels::state::ChannelsInner;
use argus::utils::error::Error;
use argus::utils::tasks::state::TasksInner;
use argus::utils::tasks::CancellableTask;

#[test]
fn test_fresh_task_flags() {
    let task = CancellableTask::new();
    assert!(!task.is_cancelled());
    assert!(!task.is_finished());
}

#[test]
fn test_cancel_idempotent() {
    let mut task = CancellableTask::new();

    for _ in 0..5 {
        task.cancel();
        assert!(task.is_cancelled());
    }
    // Nothing else about the handle changed.
    assert!(!task.is_finished());
    assert!(!task.consumed);
}

#[test]
fn test_join_single_shot() {
    let mut task = CancellableTask::new();

    assert!(task.join().is_ok());
    assert!(task.is_finished());

    let second = task.join();
    assert_eq!(second, Err(Error::AlreadyConsumed));
    let third = task.join();
    assert_eq!(third, Err(Error::AlreadyConsumed));
}

#[test]
fn test_mark_finished_reports() {
    let mut task = CancellableTask::new();
    assert!(!task.is_finished());

    task.mark_finished();
    assert!(task.is_finished());
    assert!(!task.is_cancelled());
}

#[test]
fn test_cancel_after_finish() {
    let mut task = CancellableTask::new();
    task.mark_finished();
    task.cancel();
    assert!(task.is_cancelled());
    assert!(task.is_finished());
    assert!(task.join().is_ok());
    assert_eq!(task.join(), Err(Error::AlreadyConsumed));
}

#[test]
fn test_empty_containers() {
    let tasks = TasksInner::default();
    assert!(tasks.tasks.is_empty());

    let channels = ChannelsInner::default();
    assert!(channels.channels.is_empty());
}
