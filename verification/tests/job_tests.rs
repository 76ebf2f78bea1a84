use scan2bim_converter::job::{start, AppState, CancelFlags, ALREADY_RUNNING};

#[test]
fn a_handle_raises_its_own_flag() {
    let mut flags = CancelFlags::new();
    let first = start(&mut flags, "first".to_string());
    let second = start(&mut flags, "second".to_string());
    assert_eq!(first.id, "first");
    assert_eq!(second.id, "second");
    let (a, b) = (first.cancel_flag(), second.cancel_flag());
    assert!(!flags.is_raised(a) && !flags.is_raised(b));
    second.cancel(&mut flags);
    assert!(!flags.is_raised(a));
    assert!(flags.is_raised(b));
    first.cancel(&mut flags);
    assert!(flags.is_raised(a) && flags.is_raised(b));
    assert!(!flags.is_raised(2));
}

#[test]
fn a_flag_that_is_not_there_is_not_raised() {
    let mut flags = CancelFlags::new();
    flags.raise(3);
    assert!(!flags.is_raised(3));
    assert_eq!(flags.add(), 0);
    assert!(!flags.is_raised(0));
}

#[test]
fn one_conversion_runs_at_a_time() {
    let mut state = AppState::new();
    let job = state.convert_start().unwrap();
    assert_eq!(state.convert_start().unwrap_err(), ALREADY_RUNNING);
    assert_eq!(ALREADY_RUNNING, "A conversion is already running");
    assert!(!state.is_cancelled(job.cancel_flag));
    state.convert_cancel();
    assert!(state.is_cancelled(job.cancel_flag));
    let next = state.convert_start().unwrap();
    assert!(!state.is_cancelled(next.cancel_flag));
    assert!(state.is_cancelled(job.cancel_flag));
    assert_ne!(job.id, next.id);
}

#[test]
fn a_refused_start_changes_nothing() {
    let mut state = AppState::new();
    let job = state.begin("one".to_string()).unwrap();
    assert_eq!(job.id, "one");
    assert!(state.begin("two".to_string()).is_err());
    state.convert_cancel();
    assert!(state.is_cancelled(job.cancel_flag));
    assert!(!state.is_cancelled(job.cancel_flag + 1));
}

#[test]
fn a_finished_job_is_not_cancelled() {
    let mut state = AppState::new();
    let job = state.begin("one".to_string()).unwrap();
    state.job_finished();
    state.convert_cancel();
    assert!(!state.is_cancelled(job.cancel_flag));
    let next = state.begin("two".to_string()).unwrap();
    state.convert_cancel();
    state.convert_cancel();
    assert!(state.is_cancelled(next.cancel_flag));
    assert!(!state.is_cancelled(job.cancel_flag));
}

#[test]
fn nothing_to_cancel_or_finish() {
    let mut state = AppState::new();
    state.convert_cancel();
    state.job_finished();
    assert!(!state.is_cancelled(0));
    assert!(state.begin("one".to_string()).is_ok());
}

#[test]
fn job_ids_are_random_uuids() {
    for _ in 0..200 {
        let mut state = AppState::new();
        let id = state.convert_start().unwrap().id;
        let parsed = uuid::Uuid::parse_str(&id).unwrap();
        assert_eq!(parsed.get_version_num(), 4);
        assert_eq!(parsed.get_variant(), uuid::Variant::RFC4122);
        assert_eq!(parsed.to_string(), id);
        assert_eq!(id.len(), 36);
        assert!(id.chars().all(|c| c == '-' || c.is_ascii_digit() || ('a'..='f').contains(&c)));
        assert_eq!(id.as_bytes()[14], b'4');
        assert!(b"89ab".contains(&id.as_bytes()[19]));
    }
}
