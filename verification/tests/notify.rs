use condvar::{CondVar, Lock, Task, WaitAction, WaiterEntry, WakeReason, Wakeup};

fn sleep_on(condvar: &mut CondVar, lock: &mut Lock, task: &mut Task) {
    assert!(lock.try_lock(task.id));
    loop {
        match condvar.wait(lock, task) {
            WaitAction::Proceed => {}
            WaitAction::Suspend => break,
            other => panic!("the thread should sleep, not {:?}", other),
        }
    }
}

fn finish(condvar: &mut CondVar, lock: &mut Lock, task: &mut Task) -> WaitAction {
    loop {
        let action = condvar.wait(lock, task);
        if action != WaitAction::Proceed {
            return action;
        }
    }
}

fn wakeup(thread: u64, reason: WakeReason) -> Wakeup {
    Wakeup { entry: WaiterEntry { thread, exclusive: true }, reason }
}

#[test]
fn notify_one_without_waiters_is_not_remembered() {
    let mut condvar = CondVar::new("cv");
    let mut lock = Lock::new();
    let mut task = Task::new(1);

    assert_eq!(condvar.notify_one(), vec![]);
    assert!(condvar.wait_list.is_empty());

    sleep_on(&mut condvar, &mut lock, &mut task);
    assert_eq!(condvar.wait(&mut lock, &mut task), WaitAction::Suspend);
    assert_eq!(condvar.wait_list.entries(), vec![WaiterEntry::waiter(1)]);
}

#[test]
fn notify_all_without_waiters_is_not_remembered() {
    let mut condvar = CondVar::new("cv");
    let mut lock = Lock::new();
    let mut task = Task::new(1);

    assert_eq!(condvar.notify_all(), vec![]);
    assert_eq!(condvar.notify_all(), vec![]);
    assert!(condvar.wait_list.is_empty());

    sleep_on(&mut condvar, &mut lock, &mut task);
    assert_eq!(condvar.wait(&mut lock, &mut task), WaitAction::Suspend);
}

#[test]
fn notify_one_wakes_exactly_one_of_three() {
    let mut condvar = CondVar::new("cv");
    let mut lock = Lock::new();
    let mut a = Task::new(1);
    let mut b = Task::new(2);
    let mut c = Task::new(3);
    sleep_on(&mut condvar, &mut lock, &mut a);
    sleep_on(&mut condvar, &mut lock, &mut b);
    sleep_on(&mut condvar, &mut lock, &mut c);

    assert_eq!(condvar.notify_one(), vec![wakeup(1, WakeReason::Normal)]);
    assert_eq!(
        condvar.wait_list.entries(),
        vec![WaiterEntry::waiter(2), WaiterEntry::waiter(3)]
    );
    assert_eq!(finish(&mut condvar, &mut lock, &mut a), WaitAction::Return(false));
    assert_eq!(condvar.wait(&mut lock, &mut b), WaitAction::Suspend);
    assert_eq!(condvar.wait(&mut lock, &mut c), WaitAction::Suspend);
    assert!(lock.unlock(1));

    assert_eq!(condvar.notify_one(), vec![wakeup(2, WakeReason::Normal)]);
    assert_eq!(finish(&mut condvar, &mut lock, &mut b), WaitAction::Return(false));
    assert_eq!(condvar.wait(&mut lock, &mut c), WaitAction::Suspend);
    assert!(lock.unlock(2));

    assert_eq!(condvar.notify_one(), vec![wakeup(3, WakeReason::Normal)]);
    assert_eq!(finish(&mut condvar, &mut lock, &mut c), WaitAction::Return(false));
    assert_eq!(condvar.notify_one(), vec![]);
}

#[test]
fn notify_one_leaves_pollers_alone() {
    let mut condvar = CondVar::new("cv");
    let mut lock = Lock::new();
    let mut a = Task::new(1);
    condvar.wait_list.enqueue(WaiterEntry::poller(8));
    sleep_on(&mut condvar, &mut lock, &mut a);
    condvar.wait_list.enqueue(WaiterEntry::poller(9));

    assert_eq!(condvar.notify_one(), vec![wakeup(1, WakeReason::Normal)]);
    assert_eq!(condvar.wait_list.entries(), vec![WaiterEntry::poller(8), WaiterEntry::poller(9)]);
    assert_eq!(condvar.notify_one(), vec![]);
    assert_eq!(condvar.wait_list.len(), 2);
}

#[test]
fn notify_all_wakes_all_three() {
    let mut condvar = CondVar::new("cv");
    let mut lock = Lock::new();
    let mut a = Task::new(1);
    let mut b = Task::new(2);
    let mut c = Task::new(3);
    sleep_on(&mut condvar, &mut lock, &mut b);
    sleep_on(&mut condvar, &mut lock, &mut a);
    sleep_on(&mut condvar, &mut lock, &mut c);

    assert_eq!(
        condvar.notify_all(),
        vec![
            wakeup(2, WakeReason::Normal),
            wakeup(1, WakeReason::Normal),
            wakeup(3, WakeReason::Normal),
        ]
    );
    assert!(condvar.wait_list.is_empty());

    assert_eq!(finish(&mut condvar, &mut lock, &mut a), WaitAction::Return(false));
    assert!(lock.unlock(1));
    assert_eq!(finish(&mut condvar, &mut lock, &mut b), WaitAction::Return(false));
    assert!(lock.unlock(2));
    assert_eq!(finish(&mut condvar, &mut lock, &mut c), WaitAction::Return(false));
    assert!(lock.unlock(3));
}

#[test]
fn notify_all_wakes_pollers_too() {
    let mut condvar = CondVar::new("cv");
    let mut lock = Lock::new();
    let mut a = Task::new(1);
    condvar.wait_list.enqueue(WaiterEntry::poller(8));
    sleep_on(&mut condvar, &mut lock, &mut a);

    assert_eq!(
        condvar.notify_all(),
        vec![
            Wakeup {
                entry: WaiterEntry { thread: 8, exclusive: false },
                reason: WakeReason::Normal,
            },
            wakeup(1, WakeReason::Normal),
        ]
    );
    assert!(condvar.wait_list.is_empty());
}

#[test]
fn free_waiters_drains_the_queue() {
    let mut condvar = CondVar::new("cv");
    let mut lock = Lock::new();
    let mut a = Task::new(1);
    let mut b = Task::new(2);
    sleep_on(&mut condvar, &mut lock, &mut a);
    condvar.wait_list.enqueue(WaiterEntry::poller(8));
    sleep_on(&mut condvar, &mut lock, &mut b);

    assert_eq!(
        condvar.free_waiters(),
        vec![
            wakeup(1, WakeReason::Teardown),
            Wakeup {
                entry: WaiterEntry { thread: 8, exclusive: false },
                reason: WakeReason::Teardown,
            },
            wakeup(2, WakeReason::Teardown),
        ]
    );
    assert_eq!(condvar.wait_list.len(), 0);
    assert_eq!(condvar.wait_list.entries(), vec![]);
    assert_eq!(condvar.free_waiters(), vec![]);

    assert_eq!(finish(&mut condvar, &mut lock, &mut a), WaitAction::Return(false));
    assert!(lock.unlock(1));
    assert_eq!(finish(&mut condvar, &mut lock, &mut b), WaitAction::Return(false));
    assert!(lock.unlock(2));
}

#[test]
fn wait_after_free_waiters_starts_from_an_empty_queue() {
    let mut condvar = CondVar::new("cv");
    let mut lock = Lock::new();
    let mut a = Task::new(1);
    let mut b = Task::new(2);
    sleep_on(&mut condvar, &mut lock, &mut a);
    condvar.free_waiters();

    sleep_on(&mut condvar, &mut lock, &mut b);
    assert_eq!(condvar.wait_list.entries(), vec![WaiterEntry::waiter(2)]);
    assert_eq!(condvar.wait(&mut lock, &mut b), WaitAction::Suspend);
}

#[test]
fn notifications_keep_the_name() {
    let mut condvar = CondVar::new("ready");
    condvar.notify_one();
    condvar.notify_all();
    condvar.free_waiters();
    assert_eq!(condvar.name, "ready");
}

#[test]
fn reader_sees_the_counter_after_the_writer_notified() {
    let mut condvar = CondVar::new("counter");
    let mut lock = Lock::new();
    let mut counter = 0;
    let mut reader = Task::new(1);

    // The reader takes the lock and waits.
    assert!(lock.try_lock(1));
    assert_eq!(counter, 0);
    assert_eq!(finish(&mut condvar, &mut lock, &mut reader), WaitAction::Suspend);
    assert_eq!(condvar.wait(&mut lock, &mut reader), WaitAction::Suspend);

    // The writer takes the lock, sets the counter, notifies all, and unlocks.
    assert!(lock.try_lock(2));
    counter = 1;
    assert_eq!(condvar.notify_all(), vec![wakeup(1, WakeReason::Normal)]);
    assert_eq!(finish(&mut condvar, &mut lock, &mut reader), WaitAction::AwaitLock);
    assert!(lock.unlock(2));

    // The reader's wait returns, unsignalled, with the lock held and the counter set.
    assert_eq!(finish(&mut condvar, &mut lock, &mut reader), WaitAction::Return(false));
    assert_eq!(lock.holder(), Some(1));
    assert_eq!(counter, 1);
    assert!(lock.unlock(1));

    // Round after round: the next wait sleeps until the next notification.
    assert!(lock.try_lock(1));
    assert_eq!(finish(&mut condvar, &mut lock, &mut reader), WaitAction::Suspend);
    assert!(lock.try_lock(2));
    counter = 2;
    assert_eq!(condvar.notify_all(), vec![wakeup(1, WakeReason::Normal)]);
    assert!(lock.unlock(2));
    assert_eq!(finish(&mut condvar, &mut lock, &mut reader), WaitAction::Return(false));
    assert_eq!(counter, 2);
    assert!(lock.unlock(1));
}
