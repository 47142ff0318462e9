use vstd::prelude::*;
use crate::text::same_text;

verus! {

/// The continuous-integration system a build runs under.
#[derive(Clone, Copy, Debug, PartialEq, Eq, Structural)]
pub enum CiType {
    Github,
    Gitlab,
    /// No recognised CI system.
    NoCi,
}

/// The value of the first entry named `k` in an environment snapshot.
pub open spec fn env_value(env: Seq<(String, String)>, k: Seq<char>) -> Option<Seq<char>>
    decreases env.len(),
{
    if env.len() == 0 {
        None
    } else if env[0].0@ == k {
        Some(env[0].1@)
    } else {
        env_value(env.drop_first(), k)
    }
}

/// The value of the first entry named `k`.
pub fn env_get<'a>(env: &'a Vec<(String, String)>, k: &str) -> (r: Option<&'a String>)
    ensures
        match r {
            Some(v) => env_value(env@, k@) == Some(v@),
            None => env_value(env@, k@) is None,
        },
{
    let mut i: usize = 0;
    assert(env@.skip(0) =~= env@);
    while i < env.len()
        invariant
            i <= env@.len(),
            env_value(env@, k@) == env_value(env@.skip(i as int), k@),
        decreases env@.len() - i,
    {
        if same_text(env[i].0.as_str(), k) {
            return Some(&env[i].1);
        }
        assert(env@.skip(i as int).drop_first() =~= env@.skip(i + 1));
        i = i + 1;
    }
    None
}

pub const GITLAB_CI: &'static str = "GITLAB_CI";

pub const GITHUB_ACTIONS: &'static str = "GITHUB_ACTIONS";

/// The CI system an environment snapshot names: GitLab when `GITLAB_CI` is `true`, else GitHub
/// when `GITHUB_ACTIONS` is `true`, else no CI.
pub open spec fn ci_of(env: Seq<(String, String)>) -> CiType {
    if env_value(env, GITLAB_CI@) == Some(seq!['t', 'r', 'u', 'e']) {
        CiType::Gitlab
    } else if env_value(env, GITHUB_ACTIONS@) == Some(seq!['t', 'r', 'u', 'e']) {
        CiType::Github
    } else {
        CiType::NoCi
    }
}

/// Whether an entry holds exactly `true`.
fn is_true(v: Option<&String>) -> (r: bool)
    ensures
        r == (v is Some && v.unwrap()@ == seq!['t', 'r', 'u', 'e']),
{
    proof {
        reveal_strlit("true");
    }
    assert("true"@ =~= seq!['t', 'r', 'u', 'e']);
    match v {
        Some(s) => same_text(s.as_str(), "true"),
        None => false,
    }
}

/// Detects the CI system from an environment snapshot.
pub fn detect_ci(env: &Vec<(String, String)>) -> (r: CiType)
    ensures
        r == ci_of(env@),
{
    if is_true(env_get(env, GITLAB_CI)) {
        return CiType::Gitlab;
    }
    if is_true(env_get(env, GITHUB_ACTIONS)) {
        return CiType::Github;
    }
    CiType::NoCi
}

} // verus!
