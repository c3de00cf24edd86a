//! Repository location resolution: normalizing layered argument sources,
//! matching the address against the backend catalog, stripping its prefix
//! and collecting the backend's credential variables.

use vstd::prelude::*;

use crate::location_type::{
    catalog_credentials, catalog_len, catalog_prefix, is_catalog_row, supported_location_types,
};
use crate::text::{is_prefix_of, skip_chars, starts_with, str_eq, trim, trim_end, trim_end_spec,
    trim_spec, views_of};

verus! {

/// A named environment value, as handed to the engine process.
#[derive(Debug)]
pub struct EnvValue {
    pub name: String,
    pub value: String,
}

/// One explicit argument: a key and its optional value.
#[derive(Debug)]
pub struct ArgPair {
    pub name: String,
    pub value: Option<String>,
}

/// A resolved repository location.
#[derive(Debug)]
pub struct Location {
    pub prefix: String,
    pub path: String,
    pub credentials: Vec<EnvValue>,
    pub allow_empty_password: bool,
    pub password: String,
    pub insecure_tls: bool,
}

/// The views of a sequence of string pairs.
pub open spec fn pair_views(v: Seq<(String, String)>) -> Seq<(Seq<char>, Seq<char>)> {
    v.map_values(|p: (String, String)| (p.0@, p.1@))
}

/// The views of a sequence of environment values.
pub open spec fn env_views(v: Seq<EnvValue>) -> Seq<(Seq<char>, Seq<char>)> {
    v.map_values(|e: EnvValue| (e.name@, e.value@))
}

/// Whether a raw argument survives normalization: it must carry a
/// non-empty value.
pub open spec fn keeps_arg(a: ArgPair) -> bool {
    a.value is Some && a.value->0@.len() > 0
}

/// Arguments after normalization: entries with absent or empty values are
/// discarded, the rest keep their order.
pub open spec fn normalized_args(args: Seq<ArgPair>) -> Seq<(Seq<char>, Seq<char>)>
    decreases args.len(),
{
    if args.len() == 0 {
        Seq::empty()
    } else {
        let rest = normalized_args(args.drop_last());
        let a = args.last();
        if keeps_arg(a) {
            rest.push((a.name@, a.value->0@))
        } else {
            rest
        }
    }
}

/// The value of the first pair whose key equals `name`, if any.
pub open spec fn lookup_pair(pairs: Seq<(Seq<char>, Seq<char>)>, name: Seq<char>) -> Option<
    Seq<char>,
>
    decreases pairs.len(),
{
    if pairs.len() == 0 {
        None
    } else if pairs[0].0 == name {
        Some(pairs[0].1)
    } else {
        lookup_pair(pairs.drop_first(), name)
    }
}

proof fn lemma_lookup_pair_skip(pairs: Seq<(Seq<char>, Seq<char>)>, name: Seq<char>, i: int)
    requires
        0 <= i <= pairs.len(),
        forall|k: int| 0 <= k < i ==> (#[trigger] pairs[k]).0 != name,
    ensures
        lookup_pair(pairs, name) == lookup_pair(pairs.skip(i), name),
    decreases i,
{
    if i > 0 {
        let d = pairs.drop_first();
        assert(forall|k: int| 0 <= k < i - 1 ==> (#[trigger] d[k]).0 != name);
        lemma_lookup_pair_skip(d, name, i - 1);
        assert(d.skip(i - 1) =~= pairs.skip(i));
    } else {
        assert(pairs.skip(0) =~= pairs);
    }
}

/// Normalizes raw arguments: drops entries with absent or empty values.
pub fn normalize_args(args: &Vec<ArgPair>) -> (r: Vec<(String, String)>)
    ensures
        pair_views(r@) == normalized_args(args@),
{
    let mut out: Vec<(String, String)> = Vec::new();
    let mut i: usize = 0;
    proof {
        assert(pair_views(out@) =~~= normalized_args(args@.take(0)));
    }
    while i < args.len()
        invariant
            0 <= i <= args@.len(),
            pair_views(out@) == normalized_args(args@.take(i as int)),
        decreases args@.len() - i,
    {
        let ghost out0 = out@;
        match &args[i].value {
            Some(v) => {
                if !v.as_str().is_empty() {
                    out.push((args[i].name.clone(), v.clone()));
                }
            },
            None => {},
        }
        proof {
            assert(args@.take(i + 1).drop_last() =~= args@.take(i as int));
            assert(args@.take(i + 1).last() == args@[i as int]);
            if keeps_arg(args@[i as int]) {
                assert(pair_views(out@) =~~= pair_views(out0).push(
                    (args@[i as int].name@, args@[i as int].value->0@),
                ));
            }
            assert(pair_views(out@) =~~= normalized_args(args@.take(i + 1)));
        }
        i = i + 1;
    }
    proof {
        assert(args@.take(args@.len() as int) =~= args@);
    }
    out
}

/// Looks a key up among normalized arguments, first match winning.
pub fn lookup_arg(pairs: &Vec<(String, String)>, name: &str) -> (r: Option<String>)
    ensures
        match r {
            Some(v) => lookup_pair(pair_views(pairs@), name@) == Some(v@),
            None => lookup_pair(pair_views(pairs@), name@) is None,
        },
{
    let mut i: usize = 0;
    while i < pairs.len()
        invariant
            0 <= i <= pairs@.len(),
            forall|k: int| 0 <= k < i ==> (#[trigger] pair_views(pairs@)[k]).0 != name@,
        decreases pairs@.len() - i,
    {
        if str_eq(pairs[i].0.as_str(), name) {
            proof {
                lemma_lookup_pair_skip(pair_views(pairs@), name@, i as int);
                assert(pair_views(pairs@).skip(i as int)[0] == pair_views(pairs@)[i as int]);
            }
            return Some(pairs[i].1.clone());
        }
        i = i + 1;
    }
    proof {
        lemma_lookup_pair_skip(pair_views(pairs@), name@, pairs@.len() as int);
        assert(pair_views(pairs@).skip(pairs@.len() as int) =~= Seq::<(Seq<char>, Seq<char>)>::empty());
    }
    None
}

/// The value of the environment variable `name` in the snapshot `env`,
/// or empty when it is absent.
pub open spec fn env_value_of(env: Seq<EnvValue>, name: Seq<char>) -> Seq<char> {
    match lookup_pair(env_views(env), name) {
        Some(v) => v,
        None => Seq::empty(),
    }
}

/// Reads one variable from an environment snapshot; a missing variable
/// resolves to the empty string, never an error.
pub fn env_get(env: &Vec<EnvValue>, name: &str) -> (r: String)
    ensures
        r@ == env_value_of(env@, name@),
{
    let mut i: usize = 0;
    while i < env.len()
        invariant
            0 <= i <= env@.len(),
            forall|k: int| 0 <= k < i ==> (#[trigger] env_views(env@)[k]).0 != name@,
        decreases env@.len() - i,
    {
        if str_eq(env[i].name.as_str(), name) {
            proof {
                lemma_lookup_pair_skip(env_views(env@), name@, i as int);
                assert(env_views(env@).skip(i as int)[0] == env_views(env@)[i as int]);
            }
            return env[i].value.clone();
        }
        i = i + 1;
    }
    proof {
        lemma_lookup_pair_skip(env_views(env@), name@, env@.len() as int);
        assert(env_views(env@).skip(env@.len() as int) =~= Seq::<(Seq<char>, Seq<char>)>::empty());
    }
    String::new()
}

/// The prefix token of catalog row `i` as it appears in an address:
/// the prefix followed by a colon.
pub open spec fn match_token(i: int) -> Seq<char> {
    catalog_prefix(i) + seq![':']
}

/// The first catalog row whose prefix token starts the address, scanning
/// from row `i` on.
pub open spec fn first_match_from(path: Seq<char>, i: int) -> Option<int>
    decreases catalog_len() - i,
{
    if i < 0 || i >= catalog_len() {
        None
    } else if is_prefix_of(match_token(i), path) {
        Some(i)
    } else {
        first_match_from(path, i + 1)
    }
}

/// The first catalog row whose prefix token starts the address, if any.
pub open spec fn first_match(path: Seq<char>) -> Option<int> {
    first_match_from(path, 0)
}

proof fn lemma_first_match_skip(path: Seq<char>, i: int)
    requires
        0 <= i <= catalog_len(),
        forall|k: int| 0 <= k < i ==> !is_prefix_of(#[trigger] match_token(k), path),
    ensures
        first_match(path) == first_match_from(path, i),
    decreases i,
{
    if i > 0 {
        lemma_first_match_skip(path, i - 1);
    }
}

/// The prefix the address resolves to: the matched row's token, or empty.
pub open spec fn resolved_prefix(path: Seq<char>) -> Seq<char> {
    match first_match(path) {
        Some(i) => catalog_prefix(i),
        None => Seq::empty(),
    }
}

/// The address after resolution: the matched prefix token stripped and the
/// rest trimmed, or the address unchanged when no row matches.
pub open spec fn resolved_path(path: Seq<char>) -> Seq<char> {
    match first_match(path) {
        Some(i) => trim_spec(path.skip(match_token(i).len() as int)),
        None => path,
    }
}

/// The credential pairs of the matched row, each name paired with its
/// value in the environment snapshot; no row, no credentials.
pub open spec fn resolved_credentials(path: Seq<char>, env: Seq<EnvValue>) -> Seq<
    (Seq<char>, Seq<char>),
> {
    match first_match(path) {
        Some(i) => catalog_credentials(i).map_values(|n: Seq<char>| (n, env_value_of(env, n))),
        None => Seq::empty(),
    }
}

impl Location {
    /// Matches the address against the backend catalog in declaration
    /// order: the first row whose prefix token starts the address wins;
    /// its token is stripped, the rest of the address trimmed, and the
    /// row's credential variables are read from the snapshot `env`.
    /// No match leaves the address as it stands, implying a local path.
    pub fn set_prefix_from_path(&mut self, env: &Vec<EnvValue>)
        ensures
            final(self).prefix@ == resolved_prefix(old(self).path@),
            final(self).path@ == resolved_path(old(self).path@),
            env_views(final(self).credentials@) == env_views(old(self).credentials@)
                + resolved_credentials(old(self).path@, env@),
            final(self).password == old(self).password,
            final(self).allow_empty_password == old(self).allow_empty_password,
            final(self).insecure_tls == old(self).insecure_tls,
    {
        let ghost path0 = self.path@;
        let ghost fields0 = *self;
        self.prefix = String::new();
        let types = supported_location_types();
        let mut found: Option<usize> = None;
        let mut i: usize = 0;
        while i < types.len()
            invariant
                0 <= i <= types@.len(),
                types@.len() == catalog_len(),
                forall|j: int| 0 <= j < catalog_len() ==> is_catalog_row(#[trigger] types@[j], j),
                path0 == self.path@,
                match found {
                    None => forall|k: int|
                        0 <= k < i ==> !is_prefix_of(#[trigger] match_token(k), path0),
                    Some(m) => m < i && first_match(path0) == Some(m as int)
                        && is_prefix_of(match_token(m as int), path0),
                },
            decreases types@.len() - i,
        {
            if found.is_none() {
                let token = crate::text::concat_strs(types[i].prefix.as_str(), ":");
                proof {
                    reveal_strlit(":");
                    assert(token@ =~= match_token(i as int));
                }
                if starts_with(self.path.as_str(), token.as_str()) {
                    found = Some(i);
                    proof {
                        lemma_first_match_skip(path0, i as int);
                    }
                }
            }
            i = i + 1;
        }
        match found {
            None => {
                proof {
                    lemma_first_match_skip(path0, catalog_len());
                    assert(env_views(self.credentials@) =~= env_views(self.credentials@)
                        + resolved_credentials(path0, env@));
                }
            },
            Some(m) => {
                self.prefix = types[m].prefix.clone();
                let pl = self.path.as_str().unicode_len();
                let pfx_len = types[m].prefix.as_str().unicode_len();
                proof {
                    assert(is_prefix_of(match_token(m as int), path0));
                    assert(match_token(m as int).len() == catalog_prefix(m as int).len() + 1);
                }
                let token_len = pfx_len + 1;
                let stripped = skip_chars(self.path.as_str(), token_len);
                self.path = trim(stripped.as_str());
                proof {
                    assert(path0.skip(match_token(m as int).len() as int) =~= path0.subrange(
                        token_len as int,
                        path0.len() as int,
                    ));
                }
                let ghost prefix1 = self.prefix@;
                let ghost path1 = self.path@;
                let ghost creds0 = self.credentials@;
                let names = &types[m].credentials;
                let mut k: usize = 0;

                while k < names.len()
                    invariant
                        0 <= k <= names@.len(),
                        views_of(names@) == catalog_credentials(m as int),
                        env_views(self.credentials@) == env_views(creds0) + catalog_credentials(
                            m as int,
                        ).take(k as int).map_values(|n: Seq<char>| (n, env_value_of(env@, n))),
                        self.prefix@ == prefix1,
                        self.path@ == path1,
                        self.password == fields0.password,
                        self.allow_empty_password == fields0.allow_empty_password,
                        self.insecure_tls == fields0.insecure_tls,
                    decreases names@.len() - k,
                {
                    let ghost creds_before = self.credentials@;
                    let value = env_get(env, names[k].as_str());
                    let name = names[k].clone();
                    self.credentials.push(EnvValue { name, value });
                    proof {
                        let cs = catalog_credentials(m as int);
                        assert(cs.take(k + 1) =~= cs.take(k as int).push(cs[k as int]));
                        assert(env_views(self.credentials@) =~~= env_views(creds_before).push(
                            (cs[k as int], env_value_of(env@, cs[k as int])),
                        ));
                        assert(env_views(self.credentials@) =~~= env_views(creds0) + cs.take(
                            k + 1,
                        ).map_values(|n: Seq<char>| (n, env_value_of(env@, n))));
                    }
                    k = k + 1;
                }
                proof {
                    let cs = catalog_credentials(m as int);
                    assert(cs.take(cs.len() as int) =~= cs);
                }
            },
        }
    }
}

/// What must be fetched outside before a location can be resolved:
/// the repository file and password file to read, and the password
/// command to run, when the arguments name them.
#[derive(Debug)]
pub struct SourcePlan {
    pub repository_file: Option<String>,
    pub password_file: Option<String>,
    pub password_command: Option<CommandLine>,
}

/// A tokenized command line: the program and its arguments.
#[derive(Debug)]
pub struct CommandLine {
    pub program: String,
    pub args: Vec<String>,
}

/// The texts those fetches produced: each is the content read or captured,
/// or absent where the fetch was not asked for or failed.
#[derive(Debug)]
pub struct SourceTexts {
    pub repository_file: Option<String>,
    pub password_file: Option<String>,
    pub password_command: Option<String>,
}

/// POSIX shell-style word splitting, named after `shlex`'s result: the
/// words depend on the command-line text alone.
pub uninterp spec fn shell_words_of(s: Seq<char>) -> Seq<Seq<char>>;

/// Relies on `shlex::Shlex`: splits a command line into words by POSIX
/// shell rules, honouring quoting and escapes.
#[verifier::external_body]
fn shell_split(s: &str) -> (r: Vec<String>)
    ensures
        views_of(r@) == shell_words_of(s@),
{
    shlex::Shlex::new(s).collect()
}

/// The program of a word sequence: its first word, or empty.
pub open spec fn command_program(words: Seq<Seq<char>>) -> Seq<char> {
    if words.len() > 0 {
        words[0]
    } else {
        Seq::empty()
    }
}

/// The arguments of a word sequence: all words after the first.
pub open spec fn command_args(words: Seq<Seq<char>>) -> Seq<Seq<char>> {
    if words.len() > 0 {
        words.drop_first()
    } else {
        Seq::empty()
    }
}

/// Splits a command-line text into program and arguments.
fn tokenize_command(c: &str) -> (r: CommandLine)
    ensures
        r.program@ == command_program(shell_words_of(c@)),
        views_of(r.args@) == command_args(shell_words_of(c@)),
{
    let words = shell_split(c);
    if words.len() == 0 {
        proof {
            assert(views_of(words@).len() == 0);
            assert(views_of(Seq::<String>::empty()) =~~= command_args(shell_words_of(c@)));
        }
        CommandLine { program: String::new(), args: Vec::new() }
    } else {
        let program = words[0].clone();
        let mut rest: Vec<String> = Vec::new();
        let mut i: usize = 1;
        proof {
            assert(views_of(rest@) =~~= views_of(words@).subrange(1, 1));
        }
        while i < words.len()
            invariant
                1 <= i <= words@.len(),
                views_of(rest@) == views_of(words@).subrange(1, i as int),
            decreases words@.len() - i,
        {
            let ghost rest0 = rest@;
            rest.push(words[i].clone());
            proof {
                assert(views_of(rest@) =~~= views_of(rest0).push(words@[i as int]@));
                assert(views_of(rest@) =~~= views_of(words@).subrange(1, i + 1));
            }
            i = i + 1;
        }
        proof {
            assert(views_of(words@).subrange(1, words@.len() as int) =~= command_args(
                shell_words_of(c@),
            ));
        }
        CommandLine { program, args: rest }
    }
}

/// The five well-known environment variables a location may be resolved
/// from, each paired with the argument key it stands in for.
pub open spec fn environment_arg_names_spec() -> Seq<(Seq<char>, Seq<char>)> {
    seq![
        ("repository"@, "RESTIC_REPOSITORY"@),
        ("repository-file"@, "RESTIC_REPOSITORY_FILE"@),
        ("password"@, "RESTIC_PASSWORD"@),
        ("password-file"@, "RESTIC_PASSWORD_FILE"@),
        ("password-command"@, "RESTIC_PASSWORD_COMMAND"@),
    ]
}

/// The argument keys a location may be resolved from when no explicit
/// arguments are supplied, each paired with the environment variable
/// holding its fallback value.
pub fn environment_arg_names() -> (r: Vec<(String, String)>)
    ensures
        pair_views(r@) == environment_arg_names_spec(),
{
    let mut v: Vec<(String, String)> = Vec::new();
    v.push(("repository".to_owned(), "RESTIC_REPOSITORY".to_owned()));
    v.push(("repository-file".to_owned(), "RESTIC_REPOSITORY_FILE".to_owned()));
    v.push(("password".to_owned(), "RESTIC_PASSWORD".to_owned()));
    v.push(("password-file".to_owned(), "RESTIC_PASSWORD_FILE".to_owned()));
    v.push(("password-command".to_owned(), "RESTIC_PASSWORD_COMMAND".to_owned()));
    proof {
        assert(pair_views(v@) =~~= environment_arg_names_spec());
    }
    v
}

/// The text of an optional fetch result, absent meaning empty.
pub open spec fn text_or_empty(t: Option<String>) -> Seq<char> {
    match t {
        Some(s) => s@,
        None => Seq::empty(),
    }
}

/// The repository address the arguments and fetched texts resolve to:
/// a named repository file wins and its content is trimmed, else a direct
/// `repository` or `repo` argument, else empty.
pub open spec fn path_text(norm: Seq<(Seq<char>, Seq<char>)>, f: SourceTexts) -> Seq<char> {
    match lookup_pair(norm, "repository-file"@) {
        Some(_) => trim_spec(text_or_empty(f.repository_file)),
        None => match lookup_pair(norm, "repository"@) {
            Some(v) => v,
            None => match lookup_pair(norm, "repo"@) {
                Some(v) => v,
                None => Seq::empty(),
            },
        },
    }
}

/// The password the arguments and fetched texts resolve to: a named
/// password file wins and its content is trimmed, else a password
/// command's captured output with its tail trimmed, else a direct
/// `password` or `pass` argument, else empty.
pub open spec fn password_text(norm: Seq<(Seq<char>, Seq<char>)>, f: SourceTexts) -> Seq<char> {
    match lookup_pair(norm, "password-file"@) {
        Some(_) => trim_spec(text_or_empty(f.password_file)),
        None => match lookup_pair(norm, "password-command"@) {
            Some(_) => trim_end_spec(text_or_empty(f.password_command)),
            None => match lookup_pair(norm, "password"@) {
                Some(v) => v,
                None => match lookup_pair(norm, "pass"@) {
                    Some(v) => v,
                    None => Seq::empty(),
                },
            },
        },
    }
}

impl Location {
    /// Says which outside fetches resolving these arguments will need:
    /// the repository and password files to read, when named, and the
    /// tokenized password command to run, when named and no password file
    /// stands before it.
    pub fn sources_from_args(args: &Vec<ArgPair>) -> (r: SourcePlan)
        ensures
            ({
                let norm = normalized_args(args@);
                &&& match r.repository_file {
                    Some(v) => lookup_pair(norm, "repository-file"@) == Some(v@),
                    None => lookup_pair(norm, "repository-file"@) is None,
                }
                &&& match r.password_file {
                    Some(v) => lookup_pair(norm, "password-file"@) == Some(v@),
                    None => lookup_pair(norm, "password-file"@) is None,
                }
                &&& if lookup_pair(norm, "password-file"@) is None {
                    match r.password_command {
                        Some(cl) => lookup_pair(norm, "password-command"@) is Some
                            && cl.program@ == command_program(
                            shell_words_of(lookup_pair(norm, "password-command"@)->0),
                        ) && views_of(cl.args@) == command_args(
                            shell_words_of(lookup_pair(norm, "password-command"@)->0),
                        ),
                        None => lookup_pair(norm, "password-command"@) is None,
                    }
                } else {
                    r.password_command is None
                }
            }),
    {
        let norm = normalize_args(args);
        let repository_file = lookup_arg(&norm, "repository-file");
        let password_file = lookup_arg(&norm, "password-file");
        let password_command = if password_file.is_none() {
            match lookup_arg(&norm, "password-command") {
                Some(c) => Some(tokenize_command(c.as_str())),
                None => None,
            }
        } else {
            None
        };
        SourcePlan { repository_file, password_file, password_command }
    }

    /// Builds a location from explicit arguments, the texts fetched for
    /// them, and an environment snapshot for the credential variables.
    /// Absent and unreadable sources degenerate to empty strings; the
    /// address is matched against the backend catalog when non-empty.
    pub fn new_from_args(args: &Vec<ArgPair>, fetched: &SourceTexts, env: &Vec<EnvValue>) -> (r:
        Location)
        ensures
            ({
                let norm = normalized_args(args@);
                let p = path_text(norm, *fetched);
                &&& r.prefix@ == resolved_prefix(p)
                &&& r.path@ == resolved_path(p)
                &&& env_views(r.credentials@) == resolved_credentials(p, env@)
                &&& r.password@ == password_text(norm, *fetched)
                &&& r.allow_empty_password == false
                &&& r.insecure_tls == (lookup_pair(norm, "insecure-tls"@) is Some)
            }),
    {
        let norm = normalize_args(args);
        let path = match lookup_arg(&norm, "repository-file") {
            Some(_) => match &fetched.repository_file {
                Some(t) => trim(t.as_str()),
                None => {
                    proof {
                        assert(trim_spec(Seq::<char>::empty()) =~= Seq::<char>::empty());
                    }
                    String::new()
                },
            },
            None => match lookup_arg(&norm, "repository") {
                Some(v) => v,
                None => match lookup_arg(&norm, "repo") {
                    Some(v) => v,
                    None => String::new(),
                },
            },
        };
        let password = match lookup_arg(&norm, "password-file") {
            Some(_) => match &fetched.password_file {
                Some(t) => trim(t.as_str()),
                None => {
                    proof {
                        assert(trim_spec(Seq::<char>::empty()) =~= Seq::<char>::empty());
                    }
                    String::new()
                },
            },
            None => match lookup_arg(&norm, "password-command") {
                Some(_) => match &fetched.password_command {
                    Some(t) => trim_end(t.as_str()),
                    None => String::new(),
                },
                None => match lookup_arg(&norm, "password") {
                    Some(v) => v,
                    None => match lookup_arg(&norm, "pass") {
                        Some(v) => v,
                        None => String::new(),
                    },
                },
            },
        };
        let insecure_tls = lookup_arg(&norm, "insecure-tls").is_some();
        let mut location = Location {
            path,
            credentials: Vec::new(),
            prefix: String::new(),
            allow_empty_password: false,
            password,
            insecure_tls,
        };
        if !location.path.as_str().is_empty() {
            location.set_prefix_from_path(env);
        } else {
            proof {
                let p = location.path@;
                assert forall|k: int| 0 <= k < catalog_len() implies !is_prefix_of(
                    #[trigger] match_token(k),
                    p,
                ) by {
                    assert(match_token(k).len() >= 1);
                }
                lemma_first_match_skip(p, catalog_len());
                assert(env_views(location.credentials@) =~~= resolved_credentials(p, env@));
            }
        }
        location
    }
}

/// Law: an address bearing a catalog row's prefix token resolves to that
/// row. For any catalog row `i` and any already-trimmed remainder `x`, the
/// address `prefix + ":" + x` yields the row's prefix, the bare remainder
/// as path, and exactly the row's credential variables, each carrying its
/// value in the environment snapshot.
pub proof fn lemma_catalog_prefix_resolution(i: int, x: Seq<char>, env: Seq<EnvValue>)
    requires
        0 <= i < catalog_len(),
        trim_spec(x) == x,
    ensures
        first_match(match_token(i) + x) == Some(i),
        resolved_prefix(match_token(i) + x) == catalog_prefix(i),
        resolved_path(match_token(i) + x) == x,
        resolved_credentials(match_token(i) + x, env) == catalog_credentials(i).map_values(
            |n: Seq<char>| (n, env_value_of(env, n)),
        ),
{
    reveal_strlit("");
    reveal_strlit("sftp");
    reveal_strlit("rest");
    reveal_strlit("rclone");
    reveal_strlit("s3");
    reveal_strlit("azure");
    reveal_strlit("b2");
    reveal_strlit("gs");
    let p = match_token(i) + x;
    assert(is_prefix_of(match_token(i), p)) by {
        assert(p.subrange(0, match_token(i).len() as int) =~= match_token(i));
    }
    assert forall|j: int| 0 <= j < i implies !is_prefix_of(#[trigger] match_token(j), p) by {
        let d: int = if j == 1 && i == 4 {
            1
        } else if j == 2 && i == 3 {
            1
        } else {
            0
        };
        assert(match_token(j)[d] != match_token(i)[d]);
        assert(p[d] == match_token(i)[d]);
        if is_prefix_of(match_token(j), p) {
            assert(p.subrange(0, match_token(j).len() as int)[d] == p[d]);
        }
    }
    lemma_first_match_skip(p, i);
    assert(p.skip(match_token(i).len() as int) =~= x);
}

/// Law: an address matching no catalog prefix token stands for a local
/// path. It resolves with an empty prefix, the address unchanged, and no
/// credentials.
pub proof fn lemma_unmatched_path_is_local(x: Seq<char>, env: Seq<EnvValue>)
    requires
        forall|i: int| 0 <= i < catalog_len() ==> !is_prefix_of(#[trigger] match_token(i), x),
    ensures
        first_match(x) is None,
        resolved_prefix(x) == Seq::<char>::empty(),
        resolved_path(x) == x,
        resolved_credentials(x, env) == Seq::<(Seq<char>, Seq<char>)>::empty(),
{
    lemma_first_match_skip(x, catalog_len());
}

/// Law: resolving an empty argument map yields an unset location, whatever
/// texts and environment stand beside it: its path is empty.
pub proof fn lemma_empty_args_unset(f: SourceTexts, env: Seq<EnvValue>)
    requires
        f.repository_file is None,
    ensures
        path_text(normalized_args(Seq::<ArgPair>::empty()), f).len() == 0,
        resolved_path(path_text(normalized_args(Seq::<ArgPair>::empty()), f)).len() == 0,
{
    let norm = normalized_args(Seq::<ArgPair>::empty());
    assert(norm.len() == 0);
    let p = path_text(norm, f);
    assert(p.len() == 0);
    assert forall|i: int| 0 <= i < catalog_len() implies !is_prefix_of(
        #[trigger] match_token(i),
        p,
    ) by {
        assert(match_token(i).len() >= 1);
    }
    lemma_first_match_skip(p, catalog_len());
}

/// Law: a single direct `repository` argument carries its value through as
/// the address to be matched, no file or command standing before it.
pub proof fn lemma_single_repository_arg(a: ArgPair, f: SourceTexts)
    requires
        a.name@ == "repository"@,
        a.value is Some,
        a.value->0@.len() > 0,
    ensures
        path_text(normalized_args(seq![a]), f) == a.value->0@,
{
    reveal_strlit("repository");
    reveal_strlit("repository-file");
    let args = seq![a];
    assert(args.drop_last() =~= Seq::<ArgPair>::empty());
    assert(normalized_args(Seq::<ArgPair>::empty()) =~= Seq::<(Seq<char>, Seq<char>)>::empty());
    let norm = normalized_args(args);
    assert(args.last() == a);
    assert(keeps_arg(a));
    assert(norm =~= seq![(a.name@, a.value->0@)]);
    assert("repository-file"@.len() == 15);
    assert("repository"@.len() == 10);
    assert(norm.drop_first() =~= Seq::<(Seq<char>, Seq<char>)>::empty());
    assert(lookup_pair(Seq::<(Seq<char>, Seq<char>)>::empty(), "repository-file"@) is None);
    assert(lookup_pair(norm, "repository-file"@) is None);
    assert(lookup_pair(norm, "repository"@) == Some(a.value->0@));
}

} // verus!
