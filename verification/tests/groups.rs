//! The process group registry: registration, idempotent removal,
//! group-wide clearing, and the termination-exit test.

use restic_browser::{
    add_command_to_group, process_was_terminated, remove_command_from_group,
    terminate_all_commands_in_group, CommandGroups, ExitInfo,
};

// a pid far above the kernel's pid limit: it can name no live process,
// so a termination request for it fails harmlessly
const UNUSED_PID: u32 = 2_000_000_000;

#[test]
fn register_then_deregister_leaves_group_empty() {
    let mut groups = CommandGroups::new();
    assert!(add_command_to_group(&mut groups, "fetch_files", 1234).is_ok());
    assert_eq!(groups.pids_in_group("fetch_files"), vec![1234]);
    assert!(remove_command_from_group(&mut groups, "fetch_files", 1234).is_ok());
    assert!(groups.pids_in_group("fetch_files").is_empty());
}

#[test]
fn deregistering_an_absent_id_is_a_no_op() {
    let mut groups = CommandGroups::new();
    assert!(remove_command_from_group(&mut groups, "g", 7).is_ok());
    assert!(groups.pids_in_group("g").is_empty());
    assert!(add_command_to_group(&mut groups, "g", 1).is_ok());
    assert!(remove_command_from_group(&mut groups, "g", 2).is_ok());
    assert_eq!(groups.pids_in_group("g"), vec![1]);
}

#[test]
fn groups_are_independent() {
    let mut groups = CommandGroups::new();
    assert!(add_command_to_group(&mut groups, "a", 1).is_ok());
    assert!(add_command_to_group(&mut groups, "b", 2).is_ok());
    assert!(add_command_to_group(&mut groups, "a", 3).is_ok());
    assert_eq!(groups.pids_in_group("a"), vec![1, 3]);
    assert_eq!(groups.pids_in_group("b"), vec![2]);
    assert!(remove_command_from_group(&mut groups, "a", 1).is_ok());
    assert_eq!(groups.pids_in_group("a"), vec![3]);
    assert_eq!(groups.pids_in_group("b"), vec![2]);
}

#[test]
fn terminating_an_absent_group_is_ok() {
    let mut groups = CommandGroups::new();
    assert!(terminate_all_commands_in_group(&mut groups, "nothing").is_ok());
    assert!(groups.pids_in_group("nothing").is_empty());
}

#[test]
fn terminating_a_group_clears_its_registrations() {
    let mut groups = CommandGroups::new();
    assert!(add_command_to_group(&mut groups, "g", UNUSED_PID).is_ok());
    assert!(add_command_to_group(&mut groups, "other", UNUSED_PID).is_ok());
    assert!(terminate_all_commands_in_group(&mut groups, "g").is_ok());
    assert!(groups.pids_in_group("g").is_empty());
    assert_eq!(groups.pids_in_group("other"), vec![UNUSED_PID]);
    assert!(remove_command_from_group(&mut groups, "other", UNUSED_PID).is_ok());
}

#[test]
fn superseding_then_reaping_leaves_no_leftover_registrations() {
    let mut groups = CommandGroups::new();
    // first operation in the group
    assert!(add_command_to_group(&mut groups, "g", UNUSED_PID).is_ok());
    // a second same-group operation terminates the first before starting
    assert!(terminate_all_commands_in_group(&mut groups, "g").is_ok());
    let second_pid = UNUSED_PID + 1;
    assert!(add_command_to_group(&mut groups, "g", second_pid).is_ok());
    assert_eq!(groups.pids_in_group("g"), vec![second_pid]);
    // both calls reap on their exit paths
    assert!(remove_command_from_group(&mut groups, "g", second_pid).is_ok());
    assert!(remove_command_from_group(&mut groups, "g", UNUSED_PID).is_ok());
    assert!(groups.pids_in_group("g").is_empty());
}

#[test]
fn termination_signal_exit_is_recognized() {
    let terminated = ExitInfo { success: false, code: None, signal: Some(15) };
    assert!(process_was_terminated(&terminated));
    let killed = ExitInfo { success: false, code: None, signal: Some(9) };
    assert!(!process_was_terminated(&killed));
    let failed = ExitInfo { success: false, code: Some(1), signal: None };
    assert!(!process_was_terminated(&failed));
    let ok = ExitInfo { success: true, code: Some(0), signal: None };
    assert!(!process_was_terminated(&ok));
}
