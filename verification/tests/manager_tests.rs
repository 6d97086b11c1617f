use rust_backend::manager::{
    result_severity, should_retry_status_write, status_for_result, BuildImageTask, ExampleTask,
    Severity, Task as RunnableTask, TaskManager,
};
use rust_backend::models::Buildstatus;
use rust_backend::task::{Task, TaskResult, TaskTypes};

#[test]
fn manager_starts_empty_and_accepts_tasks() {
    let mut m = TaskManager::new();
    assert!(m.tasks.is_empty());
    m.add_task(Task::new(1, TaskTypes::CreateImage("src-1".to_string())));
    assert_eq!(m.tasks.length(), 1);
}

#[test]
fn run_next_respects_dependencies() {
    let mut m = TaskManager::new();
    let mut dependent = Task::new(2, TaskTypes::CreateContainer("img-1".to_string()));
    dependent.add_dependency(1);
    m.add_task(dependent);
    m.add_task(Task::new(1, TaskTypes::CreateImage("src-1".to_string())));
    assert_eq!(m.run_next().expect("dependency first").id, 1);
    assert_eq!(m.run_next().expect("dependent second").id, 2);
    assert!(m.run_next().is_none());
}

#[test]
fn severity_per_result() {
    assert_eq!(result_severity(&TaskResult::Completed), Severity::Info);
    assert_eq!(
        result_severity(&TaskResult::Failed("boom".to_string())),
        Severity::Warn
    );
    assert_eq!(
        result_severity(&TaskResult::InvalidArguments("missing ref".to_string())),
        Severity::Error
    );
}

#[test]
fn status_per_result_is_terminal() {
    assert_eq!(status_for_result(&TaskResult::Completed), Buildstatus::Done);
    assert_eq!(
        status_for_result(&TaskResult::Failed("boom".to_string())),
        Buildstatus::Failed
    );
    assert_eq!(
        status_for_result(&TaskResult::InvalidArguments("missing ref".to_string())),
        Buildstatus::Failed
    );
}

#[test]
fn status_writes_retry_once_then_give_up() {
    assert!(should_retry_status_write(0));
    assert!(should_retry_status_write(1));
    assert!(!should_retry_status_write(2));
    assert!(!should_retry_status_write(3));
}

#[test]
fn example_task_completes() {
    let t = ExampleTask::new();
    assert!(matches!(t.run(), TaskResult::Completed));
}

#[test]
fn build_image_task_carries_its_file() {
    let t = BuildImageTask::new(7);
    assert_eq!(t.file_id, 7);
    assert!(matches!(t.run(), TaskResult::Completed));
}
