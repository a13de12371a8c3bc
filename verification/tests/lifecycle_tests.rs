use dns_test::lifecycle::{ShareCount, TaskState};

#[test]
fn last_release_triggers_exactly_one_removal() {
    let mut share = ShareCount::new();
    share.retain();
    share.retain();
    share.retain();
    let mut removals: usize = 0;
    for _ in 0..4 {
        if share.release() {
            removals += 1;
        }
    }
    assert_eq!(removals, 1);
}

#[test]
fn only_the_final_release_removes() {
    let mut share = ShareCount::new();
    share.retain();
    assert!(!share.release());
    assert!(share.release());
}

#[test]
fn abandoned_task_is_killed_but_sandbox_survives_other_handles() {
    let mut share = ShareCount::new();
    share.retain();
    let mut task = TaskState::spawn();
    let kill = task.abandon();
    assert!(kill);
    assert!(!share.release());
    assert!(share.release());
}

#[test]
fn waited_task_is_not_killed_on_abandonment() {
    let mut task = TaskState::spawn();
    task.wait();
    assert!(!task.abandon());
}
