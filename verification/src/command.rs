//! A minimal engine command wrapper: a binary path with a plain
//! `[major, minor, patch]` version, and the simple argument and
//! environment derivation that goes with it.

use vstd::prelude::*;

use crate::location::{env_views, EnvValue, Location};
use crate::program::{clone_strings, repository_env};
use crate::text::{split_on, views_of};

verus! {

/// Whether a character is a decimal digit.
pub open spec fn is_digit_char(c: char) -> bool {
    48 <= c as u32 && c as u32 <= 57
}

/// The value of a decimal digit character.
pub open spec fn digit_val(c: char) -> int {
    c as u32 - 48
}

/// Whether every character of `s` is a decimal digit.
pub open spec fn all_digits(s: Seq<char>) -> bool {
    forall|i: int| 0 <= i < s.len() ==> is_digit_char(#[trigger] s[i])
}

/// The number a digit string denotes.
pub open spec fn digits_value(s: Seq<char>) -> int
    decreases s.len(),
{
    if s.len() == 0 {
        0
    } else {
        digits_value(s.drop_last()) * 10 + digit_val(s.last())
    }
}

/// What `str::parse::<i32>` yields: an optionally signed digit string in
/// range, or nothing.
pub open spec fn parse_i32_spec(s: Seq<char>) -> Option<i32> {
    if s.len() == 0 {
        None
    } else {
        let neg = s[0] == '-';
        let ds = if s[0] == '-' || s[0] == '+' {
            s.drop_first()
        } else {
            s
        };
        if ds.len() == 0 || !all_digits(ds) {
            None
        } else {
            let v = digits_value(ds);
            if neg {
                if v <= 0x8000_0000 {
                    Some((-v) as i32)
                } else {
                    None
                }
            } else {
                if v <= 0x7fff_ffff {
                    Some(v as i32)
                } else {
                    None
                }
            }
        }
    }
}

proof fn lemma_digits_value_nonneg(s: Seq<char>)
    requires
        all_digits(s),
    ensures
        digits_value(s) >= 0,
    decreases s.len(),
{
    if s.len() > 0 {
        assert(all_digits(s.drop_last()));
        lemma_digits_value_nonneg(s.drop_last());
    }
}

proof fn lemma_digits_value_monotone(s: Seq<char>, i: int)
    requires
        all_digits(s),
        0 <= i <= s.len(),
    ensures
        digits_value(s) >= digits_value(s.take(i)),
    decreases s.len() - i,
{
    if i < s.len() {
        lemma_digits_value_monotone(s, i + 1);
        assert(s.take(i + 1).drop_last() =~= s.take(i));
        assert(all_digits(s.take(i + 1)));
        lemma_digits_value_nonneg(s.take(i));
        assert(digits_value(s.take(i + 1)) >= digits_value(s.take(i)));
    } else {
        assert(s.take(i) =~= s);
    }
}

/// Parses an optionally signed decimal integer, as `str::parse::<i32>`:
/// out-of-range or malformed input yields nothing.
pub fn parse_i32(s: &str) -> (r: Option<i32>)
    ensures
        r == parse_i32_spec(s@),
{
    let n = s.unicode_len();
    if n == 0 {
        return None;
    }
    let c0 = s.get_char(0);
    let neg = c0 == '-';
    let start: usize = if c0 == '-' || c0 == '+' {
        1
    } else {
        0
    };
    let ghost ds = if s@[0] == '-' || s@[0] == '+' {
        s@.drop_first()
    } else {
        s@
    };
    proof {
        assert(ds =~= s@.subrange(start as int, n as int));
    }
    if start == n {
        return None;
    }
    let mut acc: i64 = 0;
    let mut i: usize = start;
    proof {
        assert(ds.subrange(0, 0) =~= Seq::<char>::empty());
    }
    while i < n
        invariant
            start <= i <= n,
            1 <= n == s@.len(),
            (s@[0] == '-' || s@[0] == '+') ==> start == 1,
            !(s@[0] == '-' || s@[0] == '+') ==> start == 0,
            neg == (s@[0] == '-'),
            start < n,
            ds == s@.subrange(start as int, n as int),
            all_digits(ds.subrange(0, i - start)),
            acc == digits_value(ds.subrange(0, i - start)),
            0 <= acc <= 0x8000_0000,
        decreases n - i,
    {
        let c = s.get_char(i);
        let cu = c as u32;
        if cu < 48 || cu > 57 {
            proof {
                assert(ds[i - start] == s@[i as int]);
                assert(!is_digit_char(ds[i - start]));
            }
            return None;
        }
        let ghost taken = ds.subrange(0, i - start);
        acc = acc * 10 + ((cu - 48) as i64);
        proof {
            assert(ds.subrange(0, i + 1 - start).drop_last() =~= taken);
            assert(ds.subrange(0, i + 1 - start).last() == s@[i as int]);
            assert(acc == digits_value(ds.subrange(0, i + 1 - start)));
            assert(all_digits(ds.subrange(0, i + 1 - start)));
        }
        if acc > 0x8000_0000 {
            proof {
                if s@[0] == '-' || s@[0] == '+' {
                    assert(ds =~= s@.drop_first());
                } else {
                    assert(ds =~= s@);
                }
                if all_digits(ds) {
                    lemma_digits_value_monotone(ds, i + 1 - start);
                    assert(ds.take(i + 1 - start) =~= ds.subrange(0, i + 1 - start));
                    assert(digits_value(ds) >= acc);
                    assert(digits_value(ds) > 0x8000_0000);
                }
            }
            return None;
        }
        i = i + 1;
    }
    proof {
        assert(ds.subrange(0, ds.len() as int) =~= ds);
        assert(acc == digits_value(ds));
    }
    if neg {
        if acc == 0x8000_0000 {
            Some(i32::MIN)
        } else {
            Some(-(acc as i32))
        }
    } else {
        if acc > 0x7fff_ffff {
            return None;
        }
        Some(acc as i32)
    }
}

/// Component `k` of a dotted version token: its `k`-th dot-separated
/// piece parsed as an integer, unparsable or missing pieces counting as
/// zero.
pub open spec fn version_component(token: Seq<char>, k: int) -> i32 {
    let parts = split_on(token, '.');
    if 0 <= k < parts.len() {
        match parse_i32_spec(parts[k]) {
            Some(v) => v,
            None => 0,
        }
    } else {
        0
    }
}

/// What the engine's version-query output parses to here: the first
/// three dotted components of the second word, zeros where absent.
pub open spec fn version_of_output(stdout: Seq<char>) -> Seq<i32> {
    let words = split_on(stdout, ' ');
    if words.len() > 1 {
        seq![
            version_component(words[1], 0),
            version_component(words[1], 1),
            version_component(words[1], 2),
        ]
    } else {
        seq![0, 0, 0]
    }
}

/// The minimal engine command wrapper.
#[derive(Debug)]
pub struct ResticCommand {
    pub version: [i32; 3],
    pub path: String,
}

impl ResticCommand {
    /// A new command wrapper for the given binary path and queried
    /// version; `[0, 0, 0]` stands for a version that could not be read.
    pub fn new(path: String, version: [i32; 3]) -> (r: ResticCommand)
        ensures
            r.path == path,
            r.version@ == version@,
    {
        ResticCommand { version, path }
    }

    /// Reads the version triple from the engine's version-query output:
    /// the second word's dotted components, zeros where absent or
    /// unparsable.
    pub fn parse_version_output(stdout: &str) -> (r: [i32; 3])
        ensures
            r@ == version_of_output(stdout@),
    {
        let words = crate::text::split_char(stdout, ' ');
        if words.len() > 1 {
            proof {
                assert(views_of(words@)[1] == words@[1]@);
            }
            let token = &words[1];
            let parts = crate::text::split_char(token.as_str(), '.');
            let c0 = Self::component(&parts, 0);
            let c1 = Self::component(&parts, 1);
            let c2 = Self::component(&parts, 2);
            let r = [c0, c1, c2];
            proof {
                assert(r@ =~= version_of_output(stdout@));
            }
            r
        } else {
            let r = [0i32, 0i32, 0i32];
            proof {
                assert(r@ =~= version_of_output(stdout@));
            }
            r
        }
    }

    /// One version component from the split token pieces.
    fn component(parts: &Vec<String>, k: usize) -> (r: i32)
        ensures
            r == ({
                let pv = views_of(parts@);
                if (k as int) < pv.len() {
                    match parse_i32_spec(pv[k as int]) {
                        Some(v) => v,
                        None => 0,
                    }
                } else {
                    0
                }
            }),
    {
        if k < parts.len() {
            proof {
                assert(views_of(parts@)[k as int] == parts@[k as int]@);
            }
            match parse_i32(parts[k].as_str()) {
                Some(v) => v,
                None => 0,
            }
        } else {
            0
        }
    }

    /// Classifies a reaped run of this minimal wrapper: captured output
    /// on success, else the captured standard-error text; no
    /// cancellation is distinguished here.
    pub fn finish_run(status_success: bool, stdout: String, stderr: String) -> (r: Result<
        String,
        String,
    >)
        ensures
            status_success ==> r == Ok::<String, String>(stdout),
            !status_success ==> r == Err::<String, String>(stderr),
    {
        if status_success {
            Ok(stdout)
        } else {
            Err(stderr)
        }
    }

    /// The argument vector for a location: the caller's arguments, then
    /// the flag relaxing certificate validation when asked for.
    pub fn args(args: &Vec<String>, location: &Location) -> (r: Vec<String>)
        ensures
            views_of(r@) == if location.insecure_tls {
                views_of(args@).push("--insecure-tls"@)
            } else {
                views_of(args@)
            },
    {
        if location.insecure_tls {
            let mut out = clone_strings(args);
            let ghost out0 = out@;
            out.push("--insecure-tls".to_owned());
            proof {
                assert(views_of(out@) =~~= views_of(out0).push("--insecure-tls"@));
            }
            out
        } else {
            clone_strings(args)
        }
    }

    /// The environment entries for a location: the repository address,
    /// the password when non-empty, then the backend credentials.
    pub fn environment_values(location: &Location) -> (r: Vec<EnvValue>)
        ensures
            env_views(r@) == simple_envs_spec(*location),
    {
        let mut out: Vec<EnvValue> = Vec::new();
        if !location.path.as_str().is_empty() {
            let repo = if !location.prefix.as_str().is_empty() {
                let head = crate::text::concat_strs(location.prefix.as_str(), ":");
                crate::text::concat_strs(head.as_str(), location.path.as_str())
            } else {
                location.path.clone()
            };
            proof {
                reveal_strlit(":");
                assert(repo@ =~= repository_env(*location));
            }
            out.push(EnvValue { name: "RESTIC_REPOSITORY".to_owned(), value: repo });
        }
        if !location.password.as_str().is_empty() {
            out.push(EnvValue {
                name: "RESTIC_PASSWORD".to_owned(),
                value: location.password.clone(),
            });
        }
        let ghost head = env_views(out@);
        let mut i: usize = 0;
        while i < location.credentials.len()
            invariant
                0 <= i <= location.credentials@.len(),
                env_views(out@) == head + env_views(location.credentials@).subrange(0, i as int),
            decreases location.credentials@.len() - i,
        {
            let ghost out0 = out@;
            out.push(EnvValue {
                name: location.credentials[i].name.clone(),
                value: location.credentials[i].value.clone(),
            });
            proof {
                assert(env_views(out@) =~~= env_views(out0).push(
                    (location.credentials@[i as int].name@, location.credentials@[i as int].value@),
                ));
                assert(env_views(out@) =~~= head + env_views(location.credentials@).subrange(
                    0,
                    i + 1,
                ));
            }
            i = i + 1;
        }
        proof {
            assert(env_views(location.credentials@).subrange(
                0,
                location.credentials@.len() as int,
            ) =~= env_views(location.credentials@));
            assert(env_views(out@) =~~= simple_envs_spec(*location));
        }
        out
    }
}

/// The environment this minimal wrapper derives: the repository address
/// and password where non-empty, then the credentials; no file variants
/// are blanked here.
pub open spec fn simple_envs_spec(loc: Location) -> Seq<(Seq<char>, Seq<char>)> {
    let repo: Seq<(Seq<char>, Seq<char>)> = if loc.path@.len() > 0 {
        seq![("RESTIC_REPOSITORY"@, repository_env(loc))]
    } else {
        Seq::empty()
    };
    let password: Seq<(Seq<char>, Seq<char>)> = if loc.password@.len() > 0 {
        seq![("RESTIC_PASSWORD"@, loc.password@)]
    } else {
        Seq::empty()
    };
    repo + password + env_views(loc.credentials@)
}

} // verus!
