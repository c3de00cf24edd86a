//! Application state: the gating checks and the shared, lock-guarded
//! holder.

use restic_browser::{
    collect_snapshot_ids, parse_snapshots, AppState, Location, Program, SharedAppState, Version,
};

fn empty_location() -> Location {
    Location {
        prefix: String::new(),
        path: String::new(),
        credentials: Vec::new(),
        allow_empty_password: false,
        password: String::new(),
        insecure_tls: false,
    }
}

fn local_location(path: &str) -> Location {
    let mut loc = empty_location();
    loc.path = path.to_string();
    loc
}

fn program_with_version() -> Program {
    Program::new(
        "/usr/bin/restic".to_string(),
        None,
        Some(Version { major: 0, minor: 16, patch: 4 }),
    )
}

#[test]
fn new_state_knows_no_snapshots() {
    let state = AppState::new(program_with_version(), empty_location(), "/tmp/previews".to_string());
    assert_eq!(state.temp_dir(), "/tmp/previews");
    assert!(state.verify_snapshot("abc").is_err());
}

#[test]
fn verify_restic_path_rejects_an_unset_path() {
    let program = Program::new(String::new(), None, None);
    let state = AppState::new(program, empty_location(), String::new());
    assert_eq!(
        state.verify_restic_path(false),
        Err("No restic executable set".to_string())
    );
}

#[test]
fn verify_restic_path_rejects_a_missing_binary() {
    let state = AppState::new(program_with_version(), empty_location(), String::new());
    assert_eq!(
        state.verify_restic_path(false),
        Err("Restic executable '/usr/bin/restic' does not exist or can not be accessed.".to_string())
    );
}

#[test]
fn verify_restic_path_rejects_an_unqueried_version() {
    let program = Program::new("/usr/bin/restic".to_string(), None, None);
    let state = AppState::new(program, empty_location(), String::new());
    assert_eq!(
        state.verify_restic_path(true),
        Err("Failed to query restic version. Is '/usr/bin/restic' a valid restic application?"
            .to_string())
    );
}

#[test]
fn verify_restic_path_accepts_a_working_binary() {
    let state = AppState::new(program_with_version(), empty_location(), String::new());
    assert_eq!(state.verify_restic_path(true), Ok(()));
}

#[test]
fn verify_location_gates_on_a_non_empty_path() {
    let unset = AppState::new(program_with_version(), empty_location(), String::new());
    assert_eq!(unset.verify_location(), Err("No repository set".to_string()));
    let set = AppState::new(program_with_version(), local_location("/repo"), String::new());
    assert_eq!(set.verify_location(), Ok(()));
}

#[test]
fn verify_snapshot_checks_the_collected_ids() {
    let shared = SharedAppState::new(AppState::new(
        program_with_version(),
        local_location("/repo"),
        String::new(),
    ));
    let snaps = parse_snapshots("[{\"id\":\"abc123\",\"short_id\":\"abc\"}]").expect("decodes");
    shared.update_snapshot_ids(collect_snapshot_ids(&snaps)).expect("update succeeds");
    let state = shared.get().expect("state expected");
    assert_eq!(state.verify_snapshot("abc123"), Ok(()));
    assert_eq!(
        state.verify_snapshot("zzz"),
        Err("Can't resolve snapshot with id zzz".to_string())
    );
}

#[test]
fn shared_state_returns_copies_of_the_current_state() {
    let shared = SharedAppState::new(AppState::new(
        program_with_version(),
        empty_location(),
        "/tmp/previews".to_string(),
    ));
    let before = shared.get().expect("state expected");
    assert_eq!(before.location.path, "");
    shared.update_location(local_location("/repo")).expect("update succeeds");
    let after = shared.get().expect("state expected");
    assert_eq!(after.location.path, "/repo");
    // the copy taken before the update is unchanged
    assert_eq!(before.location.path, "");
}

#[test]
fn shared_state_updates_the_engine_wrapper() {
    let shared = SharedAppState::new(AppState::new(
        Program::new(String::new(), None, None),
        empty_location(),
        String::new(),
    ));
    shared.update_restic(program_with_version()).expect("update succeeds");
    let state = shared.get().expect("state expected");
    assert_eq!(state.restic.restic_path, "/usr/bin/restic");
    assert_eq!(
        state.restic.restic_version,
        Some(Version { major: 0, minor: 16, patch: 4 })
    );
}
