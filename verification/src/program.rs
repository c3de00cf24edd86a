//! The engine program wrapper: deriving the argument vector and
//! environment for each invocation, classifying how a run ended, and the
//! group-cancellation protocol around spawning.

use vstd::prelude::*;

use crate::group::{
    terminate_all_commands_in_group, was_terminated, CommandGroups, ExitInfo,
};
use crate::location::{env_views, lookup_pair, EnvValue, Location};
use crate::text::{is_prefix_of, split_on, starts_with, views_of};

verus! {

/// A program version: major, minor and patch numbers.
#[derive(Clone, Copy, PartialEq, Eq, Structural, Debug)]
pub struct Version {
    pub major: u64,
    pub minor: u64,
    pub patch: u64,
}

/// The engine executable wrapper: where the binary lives, its queried
/// version, and optionally where the transfer tool it can wrap lives.
#[derive(Debug)]
pub struct Program {
    pub restic_version: Option<Version>,
    pub restic_path: String,
    pub rclone_path: Option<String>,
}

/// One prepared invocation: the program to spawn, its argument vector and
/// its environment entries, in application order.
#[derive(Debug)]
pub struct Invocation {
    pub program: String,
    pub args: Vec<String>,
    pub envs: Vec<EnvValue>,
}

/// The options appended for a location: the wrapped transfer tool's
/// program option where the backend wraps one and the tool is known, and
/// the flag relaxing certificate validation where asked for.
pub open spec fn extra_args_spec(p: Program, loc: Location) -> Seq<Seq<char>> {
    let rclone = if is_prefix_of("rclone"@, loc.prefix@) && p.rclone_path is Some {
        seq!["--option"@, "rclone.program="@ + p.rclone_path->0@]
    } else {
        Seq::empty()
    };
    let tls = if loc.insecure_tls {
        seq!["--insecure-tls"@]
    } else {
        Seq::empty()
    };
    rclone + tls
}

/// The repository address handed to the engine: `prefix:path`, or the
/// bare path for the local backend.
pub open spec fn repository_env(loc: Location) -> Seq<char> {
    if loc.prefix@.len() > 0 {
        loc.prefix@ + seq![':'] + loc.path@
    } else {
        loc.path@
    }
}

/// The environment derived for a location, in application order: the
/// repository address with its file-variant blanked out, then the
/// password with its file-variant blanked out, then the backend's
/// credential entries.
pub open spec fn envs_spec(loc: Location) -> Seq<(Seq<char>, Seq<char>)> {
    let repo: Seq<(Seq<char>, Seq<char>)> = if loc.path@.len() > 0 {
        seq![
            ("RESTIC_REPOSITORY"@, repository_env(loc)),
            ("RESTIC_REPOSITORY_FILE"@, Seq::empty()),
        ]
    } else {
        Seq::empty()
    };
    let password: Seq<(Seq<char>, Seq<char>)> = if loc.password@.len() > 0 {
        seq![("RESTIC_PASSWORD"@, loc.password@), ("RESTIC_PASSWORD_FILE"@, Seq::empty())]
    } else {
        Seq::empty()
    };
    repo + password + env_views(loc.credentials@)
}

/// The error text a failed run surfaces: a fixed cancellation message
/// when the process was ended by a termination request, else the captured
/// standard-error text as it stands.
pub open spec fn run_error_spec(status: ExitInfo, stderr: Seq<char>) -> Seq<char> {
    if was_terminated(status) {
        "Command got aborted"@
    } else {
        stderr
    }
}

/// What a finished run reports: the captured output on success, else the
/// surfaced error text.
pub open spec fn run_result_spec(status: ExitInfo, stdout: Seq<char>, stderr: Seq<char>) -> Result<
    Seq<char>,
    Seq<char>,
> {
    if status.success {
        Ok(stdout)
    } else {
        Err(run_error_spec(status, stderr))
    }
}

/// Copies a list of argument strings.
pub fn clone_strings(v: &Vec<String>) -> (r: Vec<String>)
    ensures
        r@ == v@,
{
    let mut out: Vec<String> = Vec::new();
    let mut i: usize = 0;
    while i < v.len()
        invariant
            0 <= i <= v@.len(),
            out@ == v@.subrange(0, i as int),
        decreases v@.len() - i,
    {
        out.push(v[i].clone());
        proof {
            assert(out@ =~= v@.subrange(0, i + 1));
        }
        i = i + 1;
    }
    proof {
        assert(v@.subrange(0, v@.len() as int) =~= v@);
    }
    out
}

/// Copies a list of environment entries.
pub fn clone_envs(v: &Vec<EnvValue>) -> (r: Vec<EnvValue>)
    ensures
        r@ == v@,
{
    let mut out: Vec<EnvValue> = Vec::new();
    let mut i: usize = 0;
    while i < v.len()
        invariant
            0 <= i <= v@.len(),
            out@ == v@.subrange(0, i as int),
        decreases v@.len() - i,
    {
        out.push(EnvValue { name: v[i].name.clone(), value: v[i].value.clone() });
        proof {
            assert(out@[i as int] == v@[i as int]);
            assert(out@ =~= v@.subrange(0, i + 1));
        }
        i = i + 1;
    }
    proof {
        assert(v@.subrange(0, v@.len() as int) =~= v@);
    }
    out
}

impl Location {
    /// A copy of this location, field for field.
    pub fn duplicate(&self) -> (r: Location)
        ensures
            r.prefix == self.prefix,
            r.path == self.path,
            r.credentials@ == self.credentials@,
            r.allow_empty_password == self.allow_empty_password,
            r.password == self.password,
            r.insecure_tls == self.insecure_tls,
    {
        Location {
            prefix: self.prefix.clone(),
            path: self.path.clone(),
            credentials: clone_envs(&self.credentials),
            allow_empty_password: self.allow_empty_password,
            password: self.password.clone(),
            insecure_tls: self.insecure_tls,
        }
    }
}

/// Lenient semantic-version reading of a token, named after
/// `lenient_semver`'s result: it depends on the token alone.
pub uninterp spec fn lenient_version_of(s: Seq<char>) -> Option<(u64, u64, u64)>;

/// Relies on `lenient_semver::parse`: parses a version token leniently,
/// missing minor and patch parts defaulting to zero.
#[verifier::external_body]
fn parse_lenient_version(s: &str) -> (r: Option<(u64, u64, u64)>)
    ensures
        r == lenient_version_of(s@),
{
    lenient_semver::parse(s).ok().map(|v| (v.major, v.minor, v.patch))
}

/// The version token of the engine's version-query output: the second
/// word of `"<name> <version> ..."`, if the output has one.
pub open spec fn version_token(stdout: Seq<char>) -> Option<Seq<char>> {
    let words = split_on(stdout, ' ');
    if words.len() > 1 {
        Some(words[1])
    } else {
        None
    }
}

/// What the engine's version-query output parses to: the lenient reading
/// of its version token, or nothing where no token stands.
pub open spec fn restic_version_of_output(stdout: Seq<char>) -> Option<(u64, u64, u64)> {
    match version_token(stdout) {
        Some(t) => lenient_version_of(t),
        None => None,
    }
}

/// Reads the engine's version from its version-query output: the second
/// word of the first `"<name> <version> ..."` line, read leniently.
/// Unparsable output yields nothing, never an error.
pub fn parse_restic_version_output(stdout: &str) -> (r: Option<Version>)
    ensures
        match r {
            Some(v) => restic_version_of_output(stdout@) == Some((v.major, v.minor, v.patch)),
            None => restic_version_of_output(stdout@) is None,
        },
{
    let words = crate::text::split_char(stdout, ' ');
    if words.len() > 1 {
        proof {
            assert(views_of(words@)[1] == words@[1]@);
        }
        match parse_lenient_version(words[1].as_str()) {
            Some((major, minor, patch)) => Some(Version { major, minor, patch }),
            None => None,
        }
    } else {
        None
    }
}

/// The conclusion of a version query, from plain observations: `None`
/// when the binary does not exist, when no run output could be captured,
/// when the run failed, or when its output is unparsable — never an
/// error. `output` carries whether the run succeeded and its captured
/// standard output, where a run happened at all.
pub fn query_version_result(path_exists: bool, output: Option<(bool, String)>) -> (r: Option<
    Version,
>)
    ensures
        !path_exists ==> r is None,
        r is Some <==> (path_exists && (output matches Some(o) && o.0 && restic_version_of_output(
            o.1@,
        ) is Some)),
        r matches Some(v) ==> (output matches Some(o) && restic_version_of_output(o.1@) == Some(
            (v.major, v.minor, v.patch),
        )),
{
    if !path_exists {
        return None;
    }
    match output {
        Some((success, stdout)) => {
            if success {
                parse_restic_version_output(stdout.as_str())
            } else {
                None
            }
        },
        None => None,
    }
}

impl Program {
    /// A new engine wrapper for the given binary path, queried version
    /// and optional transfer-tool path.
    pub fn new(restic_path: String, rclone_path: Option<String>, restic_version: Option<Version>)
        -> (r: Program)
        ensures
            r.restic_path == restic_path,
            r.rclone_path == rclone_path,
            r.restic_version == restic_version,
    {
        Program { restic_version, restic_path, rclone_path }
    }

    /// The engine's version, where the query succeeded.
    pub fn restic_version(&self) -> (r: &Option<Version>)
        ensures
            *r == self.restic_version,
    {
        &self.restic_version
    }

    /// The path to the engine binary.
    pub fn restic_path(&self) -> (r: &String)
        ensures
            *r == self.restic_path,
    {
        &self.restic_path
    }

    /// The path to the transfer-tool binary, where one is known.
    pub fn rclone_path(&self) -> (r: &Option<String>)
        ensures
            *r == self.rclone_path,
    {
        &self.rclone_path
    }

    /// The full argument vector for a location: the caller's arguments,
    /// then the location's extra options.
    pub fn args(&self, args: &Vec<String>, location: &Location) -> (r: Vec<String>)
        ensures
            views_of(r@) == views_of(args@) + extra_args_spec(*self, *location),
    {
        let mut out = clone_strings(args);
        let ghost base = views_of(out@);
        if starts_with(location.prefix.as_str(), "rclone") {
            match &self.rclone_path {
                Some(rclone_path) => {
                    let ghost out0 = out@;
                    out.push("--option".to_owned());
                    let opt = crate::text::concat_strs("rclone.program=", rclone_path.as_str());
                    let ghost out1 = out@;
                    out.push(opt);
                    proof {
                        assert(views_of(out1) =~~= views_of(out0).push("--option"@));
                        assert(views_of(out@) =~~= views_of(out1).push(
                            "rclone.program="@ + self.rclone_path->0@,
                        ));
                    }
                },
                None => {},
            }
        }
        let ghost mid = views_of(out@);
        if location.insecure_tls {
            let ghost out2 = out@;
            out.push("--insecure-tls".to_owned());
            proof {
                assert(views_of(out@) =~~= views_of(out2).push("--insecure-tls"@));
            }
        }
        proof {
            assert(views_of(out@) =~~= views_of(args@) + extra_args_spec(*self, *location));
        }
        out
    }

    /// The environment entries for a location, in application order: the
    /// repository address (blanking its file variant), the password
    /// (blanking its file variant), then the backend credentials.
    pub fn envs(&self, location: &Location) -> (r: Vec<EnvValue>)
        ensures
            env_views(r@) == envs_spec(*location),
    {
        let mut out: Vec<EnvValue> = Vec::new();
        if !location.path.as_str().is_empty() {
            let repo = if !location.prefix.as_str().is_empty() {
                let head = crate::text::concat_strs(location.prefix.as_str(), ":");
                crate::text::concat_strs(head.as_str(), location.path.as_str())
            } else {
                location.path.clone()
            };
            proof {
                reveal_strlit(":");
                assert(repo@ =~= repository_env(*location));
            }
            out.push(EnvValue { name: "RESTIC_REPOSITORY".to_owned(), value: repo });
            // only the address variable may stand: the engine would
            // otherwise let a file variable silently override it
            out.push(EnvValue { name: "RESTIC_REPOSITORY_FILE".to_owned(), value: String::new() });
        }
        if !location.password.as_str().is_empty() {
            out.push(EnvValue {
                name: "RESTIC_PASSWORD".to_owned(),
                value: location.password.clone(),
            });
            out.push(EnvValue { name: "RESTIC_PASSWORD_FILE".to_owned(), value: String::new() });
        }
        let ghost head = env_views(out@);
        let mut i: usize = 0;
        while i < location.credentials.len()
            invariant
                0 <= i <= location.credentials@.len(),
                env_views(out@) == head + env_views(location.credentials@).subrange(0, i as int),
            decreases location.credentials@.len() - i,
        {
            let ghost out0 = out@;
            out.push(EnvValue {
                name: location.credentials[i].name.clone(),
                value: location.credentials[i].value.clone(),
            });
            proof {
                assert(env_views(out@) =~~= env_views(out0).push(
                    (location.credentials@[i as int].name@, location.credentials@[i as int].value@),
                ));
                assert(env_views(out@) =~~= head + env_views(location.credentials@).subrange(
                    0,
                    i + 1,
                ));
            }
            i = i + 1;
        }
        proof {
            assert(env_views(location.credentials@).subrange(
                0,
                location.credentials@.len() as int,
            ) =~= env_views(location.credentials@));
            assert(env_views(out@) =~~= envs_spec(*location));
        }
        out
    }

    /// Prepares one run: every process still registered under the group
    /// is asked to terminate and the group is cleared, then the program,
    /// argument vector and environment for the new process are derived.
    /// The caller spawns the invocation, registers the new process id
    /// under the group, and on every exit path deregisters it again.
    pub fn begin_run(
        &self,
        location: &Location,
        args: &Vec<String>,
        command_group: Option<&str>,
        groups: &mut CommandGroups,
    ) -> (r: Invocation)
        ensures
            r.program@ == self.restic_path@,
            views_of(r.args@) == views_of(args@) + extra_args_spec(*self, *location),
            env_views(r.envs@) == envs_spec(*location),
            match command_group {
                Some(g) => final(groups).pids_of(g@) == Seq::<u32>::empty() && forall|
                    name: Seq<char>,
                |
                    name != g@ ==> #[trigger] final(groups).pids_of(name) == old(groups).pids_of(
                        name,
                    ),
                None => *final(groups) == *old(groups),
            },
    {
        match command_group {
            Some(group) => {
                // a failed termination request is best-effort: the new
                // run proceeds either way
                let _ = terminate_all_commands_in_group(groups, group);
            },
            None => {},
        }
        let run_args = self.args(args, location);
        let run_envs = self.envs(location);
        Invocation { program: self.restic_path.clone(), args: run_args, envs: run_envs }
    }

    /// Classifies a reaped run: captured output on success; on failure,
    /// the cancellation message where the exit matches a termination
    /// request, else the captured standard-error text.
    pub fn finish_run(status: &ExitInfo, stdout: String, stderr: String) -> (r: Result<
        String,
        String,
    >)
        ensures
            match r {
                Ok(s) => run_result_spec(*status, stdout@, stderr@) == Ok::<Seq<char>, Seq<char>>(
                    s@,
                ),
                Err(e) => run_result_spec(*status, stdout@, stderr@) == Err::<Seq<char>, Seq<char>>(
                    e@,
                ),
            },
    {
        if status.success {
            Ok(stdout)
        } else {
            Err(Self::handle_run_error(status, stderr))
        }
    }

    /// Classifies a reaped redirected run, whose output went to the sink:
    /// unit on success, else as `finish_run`.
    pub fn finish_run_redirected(status: &ExitInfo, stderr: String) -> (r: Result<(), String>)
        ensures
            match r {
                Ok(_) => status.success,
                Err(e) => !status.success && e@ == run_error_spec(*status, stderr@),
            },
    {
        if status.success {
            Ok(())
        } else {
            Err(Self::handle_run_error(status, stderr))
        }
    }

    /// The error a failed run surfaces: a distinguished cancellation
    /// message for a termination-request exit, else the standard-error
    /// text as captured.
    pub fn handle_run_error(status: &ExitInfo, stderr: String) -> (r: String)
        ensures
            r@ == run_error_spec(*status, stderr@),
    {
        if crate::group::process_was_terminated(status) {
            "Command got aborted".to_owned()
        } else {
            stderr
        }
    }
}

/// Law: the derived environment carries the repository address round.
/// For a location with a non-empty path, the environment's repository
/// variable holds `prefix:path` — the bare path for the local backend —
/// and the file variant stands blanked beside it; a non-empty password
/// rides in its variable the same way.
pub proof fn lemma_envs_round_trip(loc: Location)
    requires
        loc.path@.len() > 0,
    ensures
        lookup_pair(envs_spec(loc), "RESTIC_REPOSITORY"@) == Some(repository_env(loc)),
        lookup_pair(envs_spec(loc), "RESTIC_REPOSITORY_FILE"@) == Some(Seq::<char>::empty()),
        loc.password@.len() > 0 ==> lookup_pair(envs_spec(loc), "RESTIC_PASSWORD"@) == Some(
            loc.password@,
        ),
{
    reveal_strlit("RESTIC_REPOSITORY");
    reveal_strlit("RESTIC_REPOSITORY_FILE");
    reveal_strlit("RESTIC_PASSWORD");
    let es = envs_spec(loc);
    assert(es[0] == ("RESTIC_REPOSITORY"@, repository_env(loc)));
    assert(es.drop_first()[0] == ("RESTIC_REPOSITORY_FILE"@, Seq::<char>::empty()));
    assert("RESTIC_REPOSITORY"@.len() == 17);
    assert("RESTIC_REPOSITORY_FILE"@.len() == 22);
    assert("RESTIC_PASSWORD"@.len() == 15);
    assert(lookup_pair(es, "RESTIC_REPOSITORY"@) == Some(repository_env(loc)));
    assert(lookup_pair(es.drop_first(), "RESTIC_REPOSITORY_FILE"@) == Some(Seq::<char>::empty()));
    assert(lookup_pair(es, "RESTIC_REPOSITORY_FILE"@) == Some(Seq::<char>::empty()));
    if loc.password@.len() > 0 {
        assert(es.drop_first().drop_first()[0] == ("RESTIC_PASSWORD"@, loc.password@));
        assert(lookup_pair(es.drop_first().drop_first(), "RESTIC_PASSWORD"@) == Some(
            loc.password@,
        ));
        assert(lookup_pair(es.drop_first(), "RESTIC_PASSWORD"@) == Some(loc.password@));
        assert(lookup_pair(es, "RESTIC_PASSWORD"@) == Some(loc.password@));
    }
}

} // verus!
