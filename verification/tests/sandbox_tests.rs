use rust_backend::models::Buildstatus;
use rust_backend::sandbox::{Phase, SandboxAction, SandboxChain, SandboxProfile, StepEvent};
use rust_backend::task::TaskResult;

fn profile() -> SandboxProfile {
    SandboxProfile::restricted(1000, 64 * 1024 * 1024, 5000)
}

/// Drives a chain against a scripted runtime, counting each action once
/// per request, and returns the action counts as
/// (build, create, start, cleanup).
fn drive(chain: &mut SandboxChain, mut script: Vec<StepEvent>) -> (u32, u32, u32, u32) {
    let mut counts = (0u32, 0u32, 0u32, 0u32);
    loop {
        match chain.next_action() {
            SandboxAction::BuildImage => counts.0 += 1,
            SandboxAction::CreateContainer => counts.1 += 1,
            SandboxAction::StartContainer => counts.2 += 1,
            SandboxAction::Cleanup => counts.3 += 1,
            SandboxAction::Report => return counts,
        }
        let event = if script.is_empty() { StepEvent::Succeeded } else { script.remove(0) };
        chain.step(event);
    }
}

#[test]
fn profile_is_restrictive() {
    let p = profile();
    assert!(!p.network_enabled);
    assert!(!p.run_as_root);
    assert!(p.read_only_root);
    assert_eq!(p.cpu_limit_millis, 1000);
    assert_eq!(p.memory_limit_bytes, 64 * 1024 * 1024);
    assert_eq!(p.time_limit_millis, 5000);
}

#[test]
fn begin_starts_the_build() {
    let c = SandboxChain::begin(1, "src-1".to_string(), profile());
    assert_eq!(c.phase, Phase::BuildingImage);
    assert_eq!(c.status, Buildstatus::Started);
    assert!(!c.image_built);
    assert!(!c.container_created);
    assert!(c.outcome.is_none());
}

#[test]
fn successful_chain_ends_done_with_one_cleanup() {
    let mut c = SandboxChain::begin(1, "src-1".to_string(), profile());
    let counts = drive(&mut c, vec![]);
    assert_eq!(counts, (1, 1, 1, 1));
    assert_eq!(c.phase, Phase::Finished);
    assert_eq!(c.status, Buildstatus::Done);
    assert!(matches!(c.outcome, Some(TaskResult::Completed)));
}

#[test]
fn compile_failure_skips_run_and_ends_failed() {
    // a chain whose build step fails never reaches the run step, cleans
    // up exactly once, and reports Failed
    let mut c = SandboxChain::begin(2, "src-2".to_string(), profile());
    let counts = drive(
        &mut c,
        vec![StepEvent::Failed("compile error".to_string())],
    );
    assert_eq!(counts, (1, 0, 0, 1));
    assert_eq!(c.phase, Phase::Finished);
    assert_eq!(c.status, Buildstatus::Failed);
    match c.outcome {
        Some(TaskResult::Failed(ref reason)) => assert_eq!(reason, "compile error"),
        ref other => panic!("unexpected outcome: {:?}", other.is_some()),
    }
}

#[test]
fn container_creation_failure_cleans_up_once() {
    let mut c = SandboxChain::begin(3, "src-3".to_string(), profile());
    let counts = drive(
        &mut c,
        vec![
            StepEvent::Succeeded,
            StepEvent::Failed("runtime unreachable".to_string()),
        ],
    );
    assert_eq!(counts, (1, 1, 0, 1));
    assert_eq!(c.status, Buildstatus::Failed);
}

#[test]
fn timeout_is_terminated_and_reported_failed() {
    // a container exceeding its time budget ends Failed, never stays Started
    let mut c = SandboxChain::begin(4, "src-4".to_string(), profile());
    let counts = drive(
        &mut c,
        vec![StepEvent::Succeeded, StepEvent::Succeeded, StepEvent::TimedOut],
    );
    assert_eq!(counts, (1, 1, 1, 1));
    assert_eq!(c.phase, Phase::Finished);
    assert_eq!(c.status, Buildstatus::Failed);
    match c.outcome {
        Some(TaskResult::Failed(ref reason)) => {
            assert_eq!(reason, "container run exceeded its time budget")
        }
        _ => panic!("timeout must decide a failure outcome"),
    }
}

#[test]
fn run_failure_ends_failed() {
    let mut c = SandboxChain::begin(5, "src-5".to_string(), profile());
    let counts = drive(
        &mut c,
        vec![
            StepEvent::Succeeded,
            StepEvent::Succeeded,
            StepEvent::Failed("non-zero exit".to_string()),
        ],
    );
    assert_eq!(counts, (1, 1, 1, 1));
    assert_eq!(c.status, Buildstatus::Failed);
}

#[test]
fn cleanup_failure_does_not_override_the_outcome() {
    let mut c = SandboxChain::begin(6, "src-6".to_string(), profile());
    let counts = drive(
        &mut c,
        vec![
            StepEvent::Succeeded,
            StepEvent::Succeeded,
            StepEvent::Succeeded,
            StepEvent::Failed("image removal failed".to_string()),
        ],
    );
    assert_eq!(counts, (1, 1, 1, 1));
    assert_eq!(c.phase, Phase::Finished);
    assert_eq!(c.status, Buildstatus::Done);
    assert!(matches!(c.outcome, Some(TaskResult::Completed)));
}
