use bugs::scheduler::{priority_to_bucket_index, Scheduler};
use bugs::types::{Priority, Task, TaskKind, TaskState};
use std::time::Duration;

fn make_task(priority: Priority) -> Task {
    Task {
        id: 0,
        scene_id: 1,
        priority,
        kind: TaskKind::Reasoning,
        state: TaskState::Pending,
        retry_count: 0,
        max_retries: 3,
        timeout: Duration::from_secs(30),
        assigned_to: None,
        created_at: 0,
        tags: vec![],
        description: String::new(),
    }
}

#[test]
fn priority_buckets_order_preserved() {
    let mut s = Scheduler::new(100, 10);
    s.enqueue(make_task(Priority::Background));
    s.enqueue(make_task(Priority::Emergency));
    s.enqueue(make_task(Priority::Normal));

    let first = s.dequeue().unwrap();
    assert_eq!(first.priority, Priority::Emergency);

    let second = s.dequeue().unwrap();
    assert_eq!(second.priority, Priority::Normal);

    let third = s.dequeue().unwrap();
    assert_eq!(third.priority, Priority::Background);
}

#[test]
fn subagent_registration() {
    let mut s = Scheduler::new(100, 10);
    let id = s.register_subagent();
    assert_eq!(id, 1);
    assert_eq!(s.status().active_subagents, 1);
}

#[test]
fn fifo_within_bucket_and_ids() {
    let mut s = Scheduler::new(100, 10);
    let mut a = make_task(Priority::High);
    a.description = "a".into();
    let mut b = make_task(Priority::High);
    b.description = "b".into();
    s.enqueue(a);
    s.enqueue(b);
    assert_eq!(s.status().queued_tasks, 2);
    let x = s.dequeue().unwrap();
    let y = s.dequeue().unwrap();
    assert_eq!((x.description.as_str(), x.id, x.state), ("a", 1, TaskState::Queued));
    assert_eq!((y.description.as_str(), y.id), ("b", 2));
    assert!(s.dequeue().is_none());
}

#[test]
fn aging_promotes_but_keeps_everything() {
    let mut s = Scheduler::new(100, 10);
    s.enqueue(make_task(Priority::Low));
    s.enqueue(make_task(Priority::Background));
    let t0 = std::time::Instant::now();
    while t0.elapsed() < Duration::from_millis(5) {}
    s.apply_aging(Duration::from_millis(1));
    assert_eq!(s.status().queued_tasks, 2);
    // the Low task (weight 8) moves to the Normal bucket, ahead of Background
    let first = s.dequeue().unwrap();
    assert_eq!(first.priority, Priority::Low);
    let second = s.dequeue().unwrap();
    assert_eq!(second.priority, Priority::Background);
}

#[test]
fn aging_with_long_threshold_changes_nothing() {
    let mut s = Scheduler::new(100, 10);
    s.enqueue(make_task(Priority::Normal));
    s.enqueue(make_task(Priority::Low));
    s.apply_aging(Duration::from_secs(3600));
    assert_eq!(s.dequeue().unwrap().priority, Priority::Normal);
    assert_eq!(s.dequeue().unwrap().priority, Priority::Low);
}

#[test]
fn assign_picks_least_loaded() {
    let mut s = Scheduler::new(100, 10);
    let mut t = make_task(Priority::Normal);
    assert_eq!(s.assign(&mut t), None);
    assert_eq!(t.state, TaskState::Pending);
    let a = s.register_subagent();
    let _b = s.register_subagent();
    assert_eq!(s.assign(&mut t), Some(a));
    assert_eq!(t.assigned_to, Some(a));
    assert_eq!(t.state, TaskState::Running);
    let st = s.status();
    assert_eq!((st.active_subagents, st.idle_subagents), (2, 2));
}

#[test]
fn bucket_index_table() {
    let got: Vec<usize> = [0u8, 1, 3, 4, 7, 8, 15, 16, 255].iter().map(|p| priority_to_bucket_index(*p)).collect();
    assert_eq!(got, vec![0, 1, 1, 2, 2, 3, 3, 4, 4]);
    assert_eq!(Priority::Low.level(), 8);
}

#[test]
fn aging_promotes_background_to_low() {
    let mut s = Scheduler::new(100, 10);
    s.enqueue(make_task(Priority::Background));
    let t0 = std::time::Instant::now();
    while t0.elapsed() < Duration::from_millis(5) {}
    s.apply_aging(Duration::from_millis(1));
    s.enqueue(make_task(Priority::Low));
    assert_eq!(s.dequeue().unwrap().priority, Priority::Background);
    assert_eq!(s.dequeue().unwrap().priority, Priority::Low);
}

#[test]
fn promotion_follows_the_given_flags() {
    let mut s = Scheduler::new(100, 10);
    let mut a = make_task(Priority::Normal);
    a.description = "a".into();
    let mut b = make_task(Priority::Normal);
    b.description = "b".into();
    s.enqueue(a);
    s.enqueue(b);
    s.enqueue(make_task(Priority::High));
    // the second Normal task timed out: weight 4 becomes 3, the High bucket
    s.promote_timed_out(&vec![vec![], vec![], vec![false, true], vec![], vec![]]);
    let first = s.dequeue().unwrap();
    assert_eq!(first.priority, Priority::High);
    let second = s.dequeue().unwrap();
    assert_eq!(second.description, "b");
    assert_eq!(s.dequeue().unwrap().description, "a");
    // flags past a bucket's end count as not timed out
    let mut s2 = Scheduler::new(100, 10);
    s2.enqueue(make_task(Priority::Low));
    s2.promote_bucket(3, &vec![]);
    s2.enqueue(make_task(Priority::Normal));
    assert_eq!(s2.dequeue().unwrap().priority, Priority::Normal);
}
