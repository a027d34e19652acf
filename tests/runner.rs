use flutter_engine::tasks::{Task, TaskRunner};

const PLATFORM: u64 = 10;

fn payloads(v: &[Task]) -> Vec<u64> {
    v.iter().map(|t| t.payload).collect()
}

#[test]
fn due_tasks_run_in_due_order() {
    let mut r = TaskRunner::new(PLATFORM);
    assert!(r.post_task(11, 5, 500));
    assert!(r.post_task(12, 1, 100));
    assert!(!r.post_task(PLATFORM, 3, 300));
    let (ran, next) = r.execute_tasks(PLATFORM, 5);
    assert_eq!(payloads(&ran), vec![100, 300, 500]);
    assert_eq!(next, None);
    assert_eq!(r.len(), 0);
}

#[test]
fn only_due_tasks_run() {
    let mut r = TaskRunner::new(PLATFORM);
    r.post_task(PLATFORM, 5, 500);
    r.post_task(PLATFORM, 1, 100);
    r.post_task(PLATFORM, 3, 300);
    let (ran, next) = r.execute_tasks(PLATFORM, 3);
    assert_eq!(payloads(&ran), vec![100, 300]);
    assert_eq!(next, Some(5));
    let (ran, next) = r.execute_tasks(PLATFORM, 4);
    assert!(ran.is_empty());
    assert_eq!(next, Some(5));
}

#[test]
fn equal_due_times_keep_posting_order() {
    let mut r = TaskRunner::new(PLATFORM);
    r.post_task(PLATFORM, 2, 1);
    r.post_task(PLATFORM, 2, 2);
    r.post_task(PLATFORM, 1, 0);
    r.post_task(PLATFORM, 2, 3);
    let (ran, _) = r.execute_tasks(PLATFORM, 2);
    assert_eq!(payloads(&ran), vec![0, 1, 2, 3]);
}

#[test]
fn platform_thread_identity() {
    let mut r = TaskRunner::new(PLATFORM);
    r.post_task(PLATFORM, 0, 1);
    assert_eq!(r.len(), 1);
    assert!(r.runs_task_on_current_thread(PLATFORM));
    assert!(!r.runs_task_on_current_thread(3));
}
