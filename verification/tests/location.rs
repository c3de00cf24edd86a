//! Location resolution behaviour: layered sources, catalog prefix
//! matching, credential collection.

use restic_browser::location::{env_get, normalize_args, lookup_arg, environment_arg_names};
use restic_browser::{ArgPair, EnvValue, Location, SourceTexts};

fn arg(name: &str, value: Option<&str>) -> ArgPair {
    ArgPair { name: name.to_string(), value: value.map(|v| v.to_string()) }
}

fn no_fetches() -> SourceTexts {
    SourceTexts { repository_file: None, password_file: None, password_command: None }
}

fn env(pairs: &[(&str, &str)]) -> Vec<EnvValue> {
    pairs
        .iter()
        .map(|(n, v)| EnvValue { name: n.to_string(), value: v.to_string() })
        .collect()
}

#[test]
fn s3_prefix_resolves_with_credentials() {
    let args = vec![arg("repository", Some("s3:bucket/path"))];
    let environment = env(&[("AWS_ACCESS_KEY_ID", "key"), ("AWS_SECRET_ACCESS_KEY", "secret")]);
    let loc = Location::new_from_args(&args, &no_fetches(), &environment);
    assert_eq!(loc.prefix, "s3");
    assert_eq!(loc.path, "bucket/path");
    assert_eq!(loc.credentials.len(), 2);
    assert_eq!(loc.credentials[0].name, "AWS_ACCESS_KEY_ID");
    assert_eq!(loc.credentials[0].value, "key");
    assert_eq!(loc.credentials[1].name, "AWS_SECRET_ACCESS_KEY");
    assert_eq!(loc.credentials[1].value, "secret");
}

#[test]
fn missing_credential_variables_resolve_to_empty() {
    let args = vec![arg("repository", Some("b2:bucket"))];
    let loc = Location::new_from_args(&args, &no_fetches(), &Vec::new());
    assert_eq!(loc.prefix, "b2");
    assert_eq!(loc.path, "bucket");
    assert_eq!(loc.credentials.len(), 2);
    assert_eq!(loc.credentials[0].name, "B2_ACCOUNT_ID");
    assert_eq!(loc.credentials[0].value, "");
    assert_eq!(loc.credentials[1].name, "B2_ACCOUNT_KEY");
    assert_eq!(loc.credentials[1].value, "");
}

#[test]
fn sftp_prefix_resolves_without_credentials() {
    let args = vec![arg("repository", Some("sftp:user@host:/srv/repo"))];
    let loc = Location::new_from_args(&args, &no_fetches(), &Vec::new());
    assert_eq!(loc.prefix, "sftp");
    assert_eq!(loc.path, "user@host:/srv/repo");
    assert!(loc.credentials.is_empty());
}

#[test]
fn unmatched_prefix_is_treated_as_local_path() {
    let args = vec![arg("repository", Some("/var/backups/repo"))];
    let loc = Location::new_from_args(&args, &no_fetches(), &Vec::new());
    assert_eq!(loc.prefix, "");
    assert_eq!(loc.path, "/var/backups/repo");
    assert!(loc.credentials.is_empty());
}

#[test]
fn bare_colon_matches_the_local_row_and_strips() {
    // the local row's prefix is empty, so ":X" matches it first
    let args = vec![arg("repository", Some(":X"))];
    let loc = Location::new_from_args(&args, &no_fetches(), &Vec::new());
    assert_eq!(loc.prefix, "");
    assert_eq!(loc.path, "X");
}

#[test]
fn stripped_path_is_trimmed() {
    let args = vec![arg("repository", Some("s3:  bucket/x  "))];
    let loc = Location::new_from_args(&args, &no_fetches(), &Vec::new());
    assert_eq!(loc.prefix, "s3");
    assert_eq!(loc.path, "bucket/x");
}

#[test]
fn empty_args_yield_unset_location() {
    let loc = Location::new_from_args(&Vec::new(), &no_fetches(), &Vec::new());
    assert_eq!(loc.path, "");
    assert_eq!(loc.prefix, "");
    assert_eq!(loc.password, "");
    assert!(loc.credentials.is_empty());
    assert!(!loc.insecure_tls);
    assert!(!loc.allow_empty_password);
}

#[test]
fn empty_and_absent_argument_values_are_discarded() {
    let args = vec![arg("repository", Some("")), arg("password", None)];
    let loc = Location::new_from_args(&args, &no_fetches(), &Vec::new());
    assert_eq!(loc.path, "");
    assert_eq!(loc.password, "");
}

#[test]
fn repo_alias_is_honoured() {
    let args = vec![arg("repo", Some("rest:http://host:8000/"))];
    let loc = Location::new_from_args(&args, &no_fetches(), &Vec::new());
    assert_eq!(loc.prefix, "rest");
    assert_eq!(loc.path, "http://host:8000/");
    assert_eq!(loc.credentials.len(), 2);
    assert_eq!(loc.credentials[0].name, "RESTIC_REST_USERNAME");
    assert_eq!(loc.credentials[1].name, "RESTIC_REST_PASSWORD");
}

#[test]
fn repository_file_content_wins_and_is_trimmed() {
    let args = vec![
        arg("repository-file", Some("/tmp/repofile")),
        arg("repository", Some("ignored")),
    ];
    let fetched = SourceTexts {
        repository_file: Some("  s3:frombucket \n".to_string()),
        password_file: None,
        password_command: None,
    };
    let loc = Location::new_from_args(&args, &fetched, &Vec::new());
    assert_eq!(loc.prefix, "s3");
    assert_eq!(loc.path, "frombucket");
}

#[test]
fn unreadable_repository_file_degenerates_to_unset() {
    let args = vec![
        arg("repository-file", Some("/nonexistent")),
        arg("repository", Some("ignored")),
    ];
    let loc = Location::new_from_args(&args, &no_fetches(), &Vec::new());
    assert_eq!(loc.path, "");
}

#[test]
fn direct_password_is_taken_verbatim() {
    let args = vec![
        arg("repository", Some("/r")),
        arg("password", Some(" secret ")),
    ];
    let loc = Location::new_from_args(&args, &no_fetches(), &Vec::new());
    assert_eq!(loc.password, " secret ");
}

#[test]
fn pass_alias_is_honoured() {
    let args = vec![arg("pass", Some("pw"))];
    let loc = Location::new_from_args(&args, &no_fetches(), &Vec::new());
    assert_eq!(loc.password, "pw");
}

#[test]
fn password_file_wins_over_direct_password() {
    let args = vec![
        arg("password-file", Some("/tmp/pwfile")),
        arg("password", Some("direct")),
    ];
    let fetched = SourceTexts {
        repository_file: None,
        password_file: Some(" filepw \n".to_string()),
        password_command: None,
    };
    let loc = Location::new_from_args(&args, &fetched, &Vec::new());
    assert_eq!(loc.password, "filepw");
}

#[test]
fn password_command_output_is_trimmed_at_the_end_only() {
    let args = vec![arg("password-command", Some("echo pw"))];
    let fetched = SourceTexts {
        repository_file: None,
        password_file: None,
        password_command: Some("  pw\n".to_string()),
    };
    let loc = Location::new_from_args(&args, &fetched, &Vec::new());
    assert_eq!(loc.password, "  pw");
}

#[test]
fn failed_password_command_degenerates_to_empty() {
    let args = vec![
        arg("password-command", Some("no-such-command")),
        arg("password", Some("direct")),
    ];
    let loc = Location::new_from_args(&args, &no_fetches(), &Vec::new());
    assert_eq!(loc.password, "");
}

#[test]
fn insecure_tls_is_presence_based() {
    let args = vec![arg("repository", Some("/r")), arg("insecure-tls", Some("false"))];
    let loc = Location::new_from_args(&args, &no_fetches(), &Vec::new());
    assert!(loc.insecure_tls);
}

#[test]
fn insecure_tls_with_empty_value_is_dropped() {
    let args = vec![arg("insecure-tls", Some(""))];
    let loc = Location::new_from_args(&args, &no_fetches(), &Vec::new());
    assert!(!loc.insecure_tls);
}

#[test]
fn source_plan_names_the_files_to_read() {
    let args = vec![
        arg("repository-file", Some("/tmp/r")),
        arg("password-file", Some("/tmp/p")),
        arg("password-command", Some("pass show repo")),
    ];
    let plan = Location::sources_from_args(&args);
    assert_eq!(plan.repository_file.as_deref(), Some("/tmp/r"));
    assert_eq!(plan.password_file.as_deref(), Some("/tmp/p"));
    // the password file stands before the command, so the command is not run
    assert!(plan.password_command.is_none());
}

#[test]
fn source_plan_tokenizes_the_password_command() {
    let args = vec![arg("password-command", Some("pass show 'my repo'"))];
    let plan = Location::sources_from_args(&args);
    let cl = plan.password_command.expect("command expected");
    assert_eq!(cl.program, "pass");
    assert_eq!(cl.args, vec!["show".to_string(), "my repo".to_string()]);
}

#[test]
fn source_plan_empty_command_line() {
    let args = vec![arg("password-command", Some("   "))];
    let plan = Location::sources_from_args(&args);
    let cl = plan.password_command.expect("command expected");
    assert_eq!(cl.program, "");
    assert!(cl.args.is_empty());
}

#[test]
fn environment_arg_names_cover_the_five_sources() {
    let names = environment_arg_names();
    let expected = vec![
        ("repository", "RESTIC_REPOSITORY"),
        ("repository-file", "RESTIC_REPOSITORY_FILE"),
        ("password", "RESTIC_PASSWORD"),
        ("password-file", "RESTIC_PASSWORD_FILE"),
        ("password-command", "RESTIC_PASSWORD_COMMAND"),
    ];
    assert_eq!(names.len(), expected.len());
    for (got, want) in names.iter().zip(expected.iter()) {
        assert_eq!(got.0, want.0);
        assert_eq!(got.1, want.1);
    }
}

#[test]
fn normalize_and_lookup_behave_like_a_map() {
    let args = vec![
        arg("a", Some("1")),
        arg("b", Some("")),
        arg("c", None),
        arg("d", Some("4")),
    ];
    let norm = normalize_args(&args);
    assert_eq!(norm.len(), 2);
    assert_eq!(lookup_arg(&norm, "a").as_deref(), Some("1"));
    assert_eq!(lookup_arg(&norm, "b"), None);
    assert_eq!(lookup_arg(&norm, "c"), None);
    assert_eq!(lookup_arg(&norm, "d").as_deref(), Some("4"));
}

#[test]
fn env_get_defaults_to_empty() {
    let environment = env(&[("A", "1")]);
    assert_eq!(env_get(&environment, "A"), "1");
    assert_eq!(env_get(&environment, "B"), "");
}
