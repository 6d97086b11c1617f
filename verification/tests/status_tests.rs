use rust_backend::models::{apply_status_update, Buildstatus};

#[test]
fn allowed_transitions() {
    assert!(Buildstatus::NotStarted.can_transition(Buildstatus::Started));
    assert!(Buildstatus::Started.can_transition(Buildstatus::Done));
    assert!(Buildstatus::Started.can_transition(Buildstatus::Failed));
}

#[test]
fn nothing_skips_started() {
    assert!(!Buildstatus::NotStarted.can_transition(Buildstatus::Done));
    assert!(!Buildstatus::NotStarted.can_transition(Buildstatus::Failed));
}

#[test]
fn terminal_states_are_never_left() {
    assert!(!Buildstatus::Done.can_transition(Buildstatus::Started));
    assert!(!Buildstatus::Done.can_transition(Buildstatus::NotStarted));
    assert!(!Buildstatus::Done.can_transition(Buildstatus::Failed));
    assert!(!Buildstatus::Failed.can_transition(Buildstatus::Started));
    assert!(!Buildstatus::Failed.can_transition(Buildstatus::NotStarted));
    assert!(!Buildstatus::Failed.can_transition(Buildstatus::Done));
}

#[test]
fn no_transition_back_from_started() {
    assert!(!Buildstatus::Started.can_transition(Buildstatus::NotStarted));
    assert!(!Buildstatus::Started.can_transition(Buildstatus::Started));
}

#[test]
fn full_lifecycle_write_sequence() {
    // the one transition sequence a build observes: NotStarted, Started,
    // then exactly one terminal state
    let started = apply_status_update(Buildstatus::NotStarted, Buildstatus::Started);
    assert_eq!(started, Ok(Buildstatus::Started));
    let done = apply_status_update(Buildstatus::Started, Buildstatus::Done);
    assert_eq!(done, Ok(Buildstatus::Done));
    // a further write is refused and leaves the record as it was
    let after = apply_status_update(Buildstatus::Done, Buildstatus::Started);
    assert_eq!(after, Err(Buildstatus::Done));
}

#[test]
fn refused_update_reports_current_status() {
    assert_eq!(
        apply_status_update(Buildstatus::NotStarted, Buildstatus::Done),
        Err(Buildstatus::NotStarted)
    );
    assert_eq!(
        apply_status_update(Buildstatus::Failed, Buildstatus::Done),
        Err(Buildstatus::Failed)
    );
}
