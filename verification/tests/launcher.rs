//! The engine launchers: argument and environment derivation, version
//! parsing, and run-result classification.

use restic_browser::program::query_version_result;
use restic_browser::{
    CommandGroups, EnvValue, ExitInfo, Location, Program, ResticCommand, Version,
};

fn location(prefix: &str, path: &str, password: &str, insecure: bool) -> Location {
    Location {
        prefix: prefix.to_string(),
        path: path.to_string(),
        credentials: Vec::new(),
        allow_empty_password: false,
        password: password.to_string(),
        insecure_tls: insecure,
    }
}

fn strings(v: &[&str]) -> Vec<String> {
    v.iter().map(|s| s.to_string()).collect()
}

fn env_pairs(envs: &[EnvValue]) -> Vec<(String, String)> {
    envs.iter().map(|e| (e.name.clone(), e.value.clone())).collect()
}

#[test]
fn program_args_pass_through_by_default() {
    let program = Program::new("/usr/bin/restic".to_string(), None, None);
    let loc = location("", "/repo", "", false);
    let args = program.args(&strings(&["snapshots", "--json"]), &loc);
    assert_eq!(args, strings(&["snapshots", "--json"]));
}

#[test]
fn program_args_append_insecure_tls_flag() {
    let program = Program::new("/usr/bin/restic".to_string(), None, None);
    let loc = location("rest", "http://host/", "", true);
    let args = program.args(&strings(&["snapshots"]), &loc);
    assert_eq!(args, strings(&["snapshots", "--insecure-tls"]));
}

#[test]
fn program_args_append_rclone_program_option() {
    let program = Program::new(
        "/usr/bin/restic".to_string(),
        Some("/opt/bin/rclone".to_string()),
        None,
    );
    let loc = location("rclone", "remote:backup", "", false);
    let args = program.args(&strings(&["ls", "abc"]), &loc);
    assert_eq!(
        args,
        strings(&["ls", "abc", "--option", "rclone.program=/opt/bin/rclone"])
    );
}

#[test]
fn program_args_skip_rclone_option_without_a_path() {
    let program = Program::new("/usr/bin/restic".to_string(), None, None);
    let loc = location("rclone", "remote:backup", "", false);
    let args = program.args(&strings(&["ls"]), &loc);
    assert_eq!(args, strings(&["ls"]));
}

#[test]
fn envs_round_trip_the_repository_address() {
    let program = Program::new("/usr/bin/restic".to_string(), None, None);
    let mut loc = location("s3", "bucket/x", "pw", false);
    loc.credentials.push(EnvValue { name: "AWS_ACCESS_KEY_ID".to_string(), value: "k".to_string() });
    let envs = env_pairs(&program.envs(&loc));
    assert_eq!(
        envs,
        vec![
            ("RESTIC_REPOSITORY".to_string(), "s3:bucket/x".to_string()),
            ("RESTIC_REPOSITORY_FILE".to_string(), "".to_string()),
            ("RESTIC_PASSWORD".to_string(), "pw".to_string()),
            ("RESTIC_PASSWORD_FILE".to_string(), "".to_string()),
            ("AWS_ACCESS_KEY_ID".to_string(), "k".to_string()),
        ]
    );
}

#[test]
fn envs_use_the_bare_path_for_the_local_backend() {
    let program = Program::new("/usr/bin/restic".to_string(), None, None);
    let loc = location("", "/var/repo", "", false);
    let envs = env_pairs(&program.envs(&loc));
    assert_eq!(
        envs,
        vec![
            ("RESTIC_REPOSITORY".to_string(), "/var/repo".to_string()),
            ("RESTIC_REPOSITORY_FILE".to_string(), "".to_string()),
        ]
    );
}

#[test]
fn envs_of_an_unset_location_are_empty() {
    let program = Program::new("/usr/bin/restic".to_string(), None, None);
    let loc = location("", "", "", false);
    assert!(program.envs(&loc).is_empty());
}

#[test]
fn finish_run_returns_stdout_on_success() {
    let status = ExitInfo { success: true, code: Some(0), signal: None };
    let r = Program::finish_run(&status, "out".to_string(), "err".to_string());
    assert_eq!(r, Ok("out".to_string()));
}

#[test]
fn finish_run_surfaces_stderr_on_failure() {
    let status = ExitInfo { success: false, code: Some(1), signal: None };
    let r = Program::finish_run(&status, "out".to_string(), "boom".to_string());
    assert_eq!(r, Err("boom".to_string()));
}

#[test]
fn finish_run_reports_cancellation_distinctly() {
    let status = ExitInfo { success: false, code: None, signal: Some(15) };
    let r = Program::finish_run(&status, "out".to_string(), "noise".to_string());
    assert_eq!(r, Err("Command got aborted".to_string()));
    let r2 = Program::finish_run_redirected(&status, "noise".to_string());
    assert_eq!(r2, Err("Command got aborted".to_string()));
}

#[test]
fn begin_run_derives_the_invocation_and_clears_the_group() {
    let program = Program::new(
        "/usr/bin/restic".to_string(),
        None,
        Some(Version { major: 0, minor: 16, patch: 4 }),
    );
    let loc = location("", "/repo", "pw", false);
    let mut groups = CommandGroups::new();
    let invocation = program.begin_run(&loc, &strings(&["snapshots", "--json"]), Some("fetch"), &mut groups);
    assert_eq!(invocation.program, "/usr/bin/restic");
    assert_eq!(invocation.args, strings(&["snapshots", "--json"]));
    assert_eq!(
        env_pairs(&invocation.envs)[0],
        ("RESTIC_REPOSITORY".to_string(), "/repo".to_string())
    );
    assert!(groups.pids_in_group("fetch").is_empty());
}

#[test]
fn lenient_version_parse_reads_the_second_word() {
    let v = restic_browser::program::parse_restic_version_output(
        "restic 0.16.4 compiled with go1.21.3 on linux/amd64",
    )
    .expect("version expected");
    assert_eq!((v.major, v.minor, v.patch), (0, 16, 4));
}

#[test]
fn lenient_version_parse_accepts_shortened_versions() {
    let v = restic_browser::program::parse_restic_version_output("restic 1.2 extra")
        .expect("version expected");
    assert_eq!((v.major, v.minor, v.patch), (1, 2, 0));
}

#[test]
fn version_parse_yields_none_without_a_token() {
    assert!(restic_browser::program::parse_restic_version_output("restic").is_none());
    assert!(restic_browser::program::parse_restic_version_output("").is_none());
}

#[test]
fn version_parse_yields_none_for_garbage() {
    assert!(restic_browser::program::parse_restic_version_output("restic ???").is_none());
}

#[test]
fn restic_command_version_components() {
    assert_eq!(ResticCommand::parse_version_output("restic 0.16.4 more"), [0, 16, 4]);
    assert_eq!(ResticCommand::parse_version_output("restic 1.2"), [1, 2, 0]);
    assert_eq!(ResticCommand::parse_version_output("restic"), [0, 0, 0]);
    assert_eq!(ResticCommand::parse_version_output(""), [0, 0, 0]);
    // an overflowing or unparsable component degrades to zero
    assert_eq!(
        ResticCommand::parse_version_output("restic 99999999999.1.2"),
        [0, 1, 2]
    );
    assert_eq!(ResticCommand::parse_version_output("restic a.b.c"), [0, 0, 0]);
}

#[test]
fn restic_command_args_and_envs() {
    let loc = location("s3", "bucket", "pw", true);
    let args = ResticCommand::args(&strings(&["ls"]), &loc);
    assert_eq!(args, strings(&["ls", "--insecure-tls"]));
    let envs = env_pairs(&ResticCommand::environment_values(&loc));
    // this minimal variant blanks no file variables
    assert_eq!(
        envs,
        vec![
            ("RESTIC_REPOSITORY".to_string(), "s3:bucket".to_string()),
            ("RESTIC_PASSWORD".to_string(), "pw".to_string()),
        ]
    );
    let command = ResticCommand::new("/usr/bin/restic".to_string(), [0, 16, 4]);
    assert_eq!(command.path, "/usr/bin/restic");
    assert_eq!(command.version, [0, 16, 4]);
}

#[test]
fn restic_command_finish_run_interprets_the_exit() {
    assert_eq!(
        ResticCommand::finish_run(true, "out".to_string(), "err".to_string()),
        Ok("out".to_string())
    );
    assert_eq!(
        ResticCommand::finish_run(false, "out".to_string(), "err".to_string()),
        Err("err".to_string())
    );
}

#[test]
fn version_query_of_a_missing_binary_is_none() {
    assert!(query_version_result(false, Some((true, "restic 0.16.4".to_string()))).is_none());
    assert!(query_version_result(true, None).is_none());
    assert!(query_version_result(true, Some((false, "restic 0.16.4".to_string()))).is_none());
    let v = query_version_result(true, Some((true, "restic 0.16.4 compiled".to_string())))
        .expect("version expected");
    assert_eq!((v.major, v.minor, v.patch), (0, 16, 4));
}
