use rust_backend::queue::Queue;
use rust_backend::task::{Task, TaskTypes};

#[test]
fn new_queue_is_empty() {
    let q = Queue::new();
    assert!(q.is_empty());
    assert_eq!(q.length(), 0);
}

#[test]
fn empty_queue_returns_none() {
    let mut q = Queue::new();
    assert!(q.dequeue_next_runnable().is_none());
    assert!(q.dequeue().is_none());
}

#[test]
fn task_new_has_no_dependencies() {
    let t = Task::new(1, TaskTypes::CreateImage("src-1".to_string()));
    assert_eq!(t.id, 1);
    assert_eq!(t.dependencies.len(), 0);
    assert!(matches!(t.task_type, TaskTypes::CreateImage(ref s) if s == "src-1"));
}

#[test]
fn immediate_dequeue_of_independent_task() {
    // enqueue CreateImage("src-1") with no dependencies: dequeue returns it
    // immediately and the queue length becomes 0
    let mut q = Queue::new();
    q.enqueue(Task::new(1, TaskTypes::CreateImage("src-1".to_string())));
    assert_eq!(q.length(), 1);
    let t = q.dequeue_next_runnable().expect("task should be runnable");
    assert_eq!(t.id, 1);
    assert!(matches!(t.task_type, TaskTypes::CreateImage(ref s) if s == "src-1"));
    assert_eq!(q.length(), 0);
}

#[test]
fn dependent_task_waits_for_its_dependency() {
    // enqueue X, then Y depending on X: dequeue returns X first; afterwards
    // Y's dependency set is empty and the second dequeue returns Y
    let mut q = Queue::new();
    let x = Task::new(1, TaskTypes::CreateImage("src-1".to_string()));
    let mut y = Task::new(2, TaskTypes::CreateContainer("img-1".to_string()));
    y.add_dependency(1);
    q.enqueue(x);
    q.enqueue(y);
    let first = q.dequeue_next_runnable().expect("X should be runnable");
    assert_eq!(first.id, 1);
    let second = q.dequeue_next_runnable().expect("Y should be runnable after X");
    assert_eq!(second.id, 2);
    assert_eq!(second.dependencies.len(), 0);
    assert!(q.is_empty());
}

#[test]
fn dependent_enqueued_first_still_waits() {
    let mut q = Queue::new();
    let mut y = Task::new(2, TaskTypes::StartContainer("ctr-1".to_string()));
    y.add_dependency(1);
    q.enqueue(y);
    q.enqueue(Task::new(1, TaskTypes::CreateContainer("img-1".to_string())));
    let first = q.dequeue_next_runnable().expect("the dependency should run first");
    assert_eq!(first.id, 1);
    let second = q.dequeue_next_runnable().expect("the dependent should now run");
    assert_eq!(second.id, 2);
}

#[test]
fn dequeue_clears_dependency_in_every_waiter() {
    // one dequeue removes the selected task from every other queued task's
    // dependency set in the same pass
    let mut q = Queue::new();
    let a = Task::new(1, TaskTypes::CreateImage("src-1".to_string()));
    let mut b = Task::new(2, TaskTypes::CreateContainer("img-1".to_string()));
    b.add_dependency(1);
    let mut c = Task::new(3, TaskTypes::StartContainer("ctr-1".to_string()));
    c.add_dependency(1);
    q.enqueue(a);
    q.enqueue(b);
    q.enqueue(c);
    assert_eq!(q.dequeue_next_runnable().expect("A runnable").id, 1);
    // both waiters depended only on A, so both are now runnable, in order
    assert_eq!(q.dequeue_next_runnable().expect("B runnable").id, 2);
    assert_eq!(q.dequeue_next_runnable().expect("C runnable").id, 3);
}

#[test]
fn all_blocked_queue_returns_none() {
    let mut q = Queue::new();
    let mut a = Task::new(1, TaskTypes::CreateImage("src-1".to_string()));
    a.add_dependency(2);
    let mut b = Task::new(2, TaskTypes::CreateImage("src-2".to_string()));
    b.add_dependency(1);
    q.enqueue(a);
    q.enqueue(b);
    assert!(q.dequeue_next_runnable().is_none());
    assert_eq!(q.length(), 2);
}

#[test]
fn dangling_dependency_never_runs() {
    let mut q = Queue::new();
    let mut a = Task::new(1, TaskTypes::CreateImage("src-1".to_string()));
    a.add_dependency(99);
    q.enqueue(a);
    assert!(q.dequeue_next_runnable().is_none());
    assert_eq!(q.length(), 1);
}

#[test]
fn fifo_among_unrelated_tasks() {
    // enqueue order is dequeue order for tasks with no dependency relation
    let mut q = Queue::new();
    q.enqueue(Task::new(10, TaskTypes::CreateImage("src-a".to_string())));
    q.enqueue(Task::new(11, TaskTypes::CreateImage("src-b".to_string())));
    q.enqueue(Task::new(12, TaskTypes::CreateImage("src-c".to_string())));
    assert_eq!(q.dequeue().expect("first").id, 10);
    assert_eq!(q.dequeue().expect("second").id, 11);
    assert_eq!(q.dequeue().expect("third").id, 12);
    assert!(q.is_empty());
}

#[test]
fn blocked_head_is_skipped_for_later_runnable() {
    let mut q = Queue::new();
    let mut blocked = Task::new(1, TaskTypes::StartContainer("ctr-1".to_string()));
    blocked.add_dependency(77);
    q.enqueue(blocked);
    q.enqueue(Task::new(2, TaskTypes::CreateImage("src-2".to_string())));
    let t = q.dequeue_next_runnable().expect("the later task is runnable");
    assert_eq!(t.id, 2);
    assert_eq!(q.length(), 1);
}

#[test]
fn remove_dependency_drops_only_that_id() {
    let mut t = Task::new(5, TaskTypes::RemoveContainer("ctr-9".to_string()));
    t.add_dependency(1);
    t.add_dependency(2);
    t.add_dependency(1);
    t.remove_dependency(1);
    assert_eq!(t.dependencies, vec![2]);
}
