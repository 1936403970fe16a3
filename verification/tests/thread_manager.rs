use vedirect_link::thread_manager::{ThreadManager, ThreadMessage};

#[test]
fn unknown_worker_cannot_be_killed() {
    let manager = ThreadManager::new();
    assert!(!manager.kill("reader"));
    assert!(!manager.kill(""));
}

#[test]
fn kill_reaches_the_mailbox_of_the_named_worker() {
    let mut manager = ThreadManager::new();
    let reader = manager.spawn("reader");
    let writer = manager.spawn("writer");
    assert!(!reader.killed());
    assert!(!writer.killed());
    assert!(manager.kill("reader"));
    assert!(!writer.killed());
    assert!(reader.killed());
    assert!(!reader.killed());
    assert!(!manager.kill("Reader"));
    assert!(manager.kill("writer"));
    assert!(writer.killed());
}

#[test]
fn same_name_again_replaces_the_worker() {
    let mut manager = ThreadManager::new();
    let old = manager.spawn("w");
    let new = manager.spawn("w");
    assert!(manager.kill("w"));
    assert!(!old.killed());
    assert!(new.killed());
}

#[test]
fn kill_after_the_worker_is_gone_does_not_panic() {
    let mut manager = ThreadManager::new();
    let mailbox = manager.spawn("gone");
    drop(mailbox);
    assert!(manager.kill("gone"));
}

#[test]
fn worker_loop_ends_when_killed() {
    let mut manager = ThreadManager::new();
    let mailbox = manager.spawn("loop");
    let mut rounds: u64 = 0;
    while !mailbox.killed() {
        rounds += 1;
        if rounds == 3 {
            assert!(manager.kill("loop"));
        }
    }
    assert_eq!(rounds, 3);
}

#[test]
fn only_a_kill_message_ends_a_worker() {
    assert!(ThreadMessage::ends_worker(Some(ThreadMessage::Kill)));
    assert!(!ThreadMessage::ends_worker(None));
}
