use flion::task_runner::TaskQueue;

#[test]
fn run_due_runs_only_due_tasks_and_reports_next_wake() {
    let mut q: TaskQueue<&str> = TaskQueue::new();
    q.post_task("t1", 5);
    q.post_task("t2", 1);
    q.post_task("t3", 10);
    let (mut due, next) = q.run_due(6);
    due.sort();
    assert_eq!(due, vec!["t1", "t2"]);
    assert_eq!(next, Some(10));
    assert_eq!(q.len(), 1);
    let (due, next) = q.run_due(10);
    assert_eq!(due, vec!["t3"]);
    assert_eq!(next, None);
    assert_eq!(q.len(), 0);
}

#[test]
fn run_due_on_empty_queue() {
    let mut q: TaskQueue<u32> = TaskQueue::new();
    let (due, next) = q.run_due(u64::MAX);
    assert!(due.is_empty());
    assert_eq!(next, None);
}

#[test]
fn run_due_keeps_posting_order_and_target_equal_to_now_is_due() {
    let mut q: TaskQueue<u32> = TaskQueue::new();
    q.post_task(1, 7);
    q.post_task(2, 3);
    q.post_task(3, 7);
    q.post_task(4, 9);
    q.post_task(5, 8);
    let (due, next) = q.run_due(7);
    assert_eq!(due, vec![1, 2, 3]);
    assert_eq!(next, Some(8));
    let (due, next) = q.run_due(7);
    assert!(due.is_empty());
    assert_eq!(next, Some(8));
}

#[test]
fn run_due_nothing_due_yet() {
    let mut q: TaskQueue<u32> = TaskQueue::new();
    q.post_task(1, 20);
    q.post_task(2, 15);
    let (due, next) = q.run_due(0);
    assert!(due.is_empty());
    assert_eq!(next, Some(15));
    assert_eq!(q.len(), 2);
}

#[test]
fn task_at_largest_time_stays_pending_until_then() {
    let mut q: TaskQueue<u8> = TaskQueue::new();
    q.post_task(9, u64::MAX);
    let (due, next) = q.run_due(u64::MAX - 1);
    assert!(due.is_empty());
    assert_eq!(next, Some(u64::MAX));
    let (due, next) = q.run_due(u64::MAX);
    assert_eq!(due, vec![9]);
    assert_eq!(next, None);
}
