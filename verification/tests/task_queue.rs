use zkp_postcard::task_queue::{Task, TaskQueue};

#[test]
fn queue_grows_by_one_per_push() {
    let mut q = TaskQueue::new();
    assert_eq!(q.len(), 0);
    q.push(Task { id: "t1".to_string(), task_type: "prove".to_string(), status: "queued".to_string() });
    q.push(Task { id: "t2".to_string(), task_type: "verify".to_string(), status: "queued".to_string() });
    assert_eq!(q.len(), 2);
}
