use vstd::prelude::*;

use crate::text::strs_view;

verus! {

/// Whether the external assistant CLI was found, and where.
#[derive(Debug)]
pub struct CliStatus {
    pub installed: bool,
    pub path: Option<String>,
    pub version: Option<String>,
}

/// The status reported for a CLI probe that found the executable at
/// `path`, or found none. No version is probed.
pub fn check_cli_status(path: Option<String>) -> (r: CliStatus)
    ensures
        r.installed == (path is Some),
        crate::text::opt_view(r.path) == crate::text::opt_view(path),
        r.version is None,
{
    match path {
        Some(p) => CliStatus { installed: true, path: Some(p), version: None },
        None => CliStatus { installed: false, path: None, version: None },
    }
}

/// The places the assistant CLI is looked for, in order: the bare
/// command, the package managers' usual prefixes, the per-user
/// installations under the home directory, and the working directory's
/// own modules.
pub open spec fn spec_cli_candidates(home: Seq<char>) -> Seq<Seq<char>> {
    seq![
        "assistant"@,
        "/opt/homebrew/bin/assistant"@,
        "/usr/local/bin/assistant"@,
        home + "/.npm-global/bin/assistant"@,
        home + "/node_modules/.bin/assistant"@,
        home + "/.nvm/versions/node/*/bin/assistant"@,
        "./node_modules/.bin/assistant"@,
    ]
}

/// The candidate paths for the assistant CLI, given the home directory.
pub fn cli_candidates(home: &str) -> (r: Vec<String>)
    ensures
        strs_view(r@) == spec_cli_candidates(home@),
{
    let mut r: Vec<String> = Vec::new();
    r.push(String::from_str("assistant"));
    r.push(String::from_str("/opt/homebrew/bin/assistant"));
    r.push(String::from_str("/usr/local/bin/assistant"));
    let mut a = String::from_str(home);
    a.append("/.npm-global/bin/assistant");
    r.push(a);
    let mut b = String::from_str(home);
    b.append("/node_modules/.bin/assistant");
    r.push(b);
    let mut c = String::from_str(home);
    c.append("/.nvm/versions/node/*/bin/assistant");
    r.push(c);
    r.push(String::from_str("./node_modules/.bin/assistant"));
    proof {
        assert(strs_view(r@) =~= spec_cli_candidates(home@));
    }
    r
}

/// The first candidate that exists on disk, where `exists[i]` says
/// whether `candidates[i]` does.
pub fn pick_first_existing(candidates: &Vec<String>, exists: &Vec<bool>) -> (r: Option<String>)
    requires
        candidates@.len() == exists@.len(),
    ensures
        match r {
            Some(s) => exists|i: int|
                0 <= i < candidates@.len() && exists@[i] && s@ == candidates@[i]@ && (forall|
                    j: int,
                |
                    0 <= j < i ==> !exists@[j]),
            None => forall|i: int| 0 <= i < exists@.len() ==> !exists@[i],
        },
{
    let mut i: usize = 0;
    while i < candidates.len()
        invariant
            candidates@.len() == exists@.len(),
            i <= candidates@.len(),
            forall|j: int| 0 <= j < i ==> !exists@[j],
        decreases candidates@.len() - i,
    {
        if exists[i] {
            let s = candidates[i].clone();
            return Some(s);
        }
        i = i + 1;
    }
    None
}

/// Resolves the CLI's path: a non-empty answer from the system's own
/// lookup wins; otherwise the first candidate that exists on disk. The
/// host performs the lookup and the existence probes.
pub fn resolve_cli(
    which_path: Option<String>,
    candidates: &Vec<String>,
    exists: &Vec<bool>,
) -> (r: Option<String>)
    requires
        candidates@.len() == exists@.len(),
    ensures
        (match which_path {
            Some(ref w) => w@.len() > 0,
            None => false,
        }) ==> (match (r, which_path) {
            (Some(ref s), Some(ref w)) => s@ == w@,
            _ => false,
        }),
        (match which_path {
            Some(ref w) => w@.len() == 0,
            None => true,
        }) ==> (match r {
            Some(s) => exists|i: int|
                0 <= i < candidates@.len() && exists@[i] && s@ == candidates@[i]@ && (forall|
                    j: int,
                |
                    0 <= j < i ==> !exists@[j]),
            None => forall|i: int| 0 <= i < exists@.len() ==> !exists@[i],
        }),
{
    match which_path {
        Some(w) => {
            if !w.as_str().is_empty() {
                Some(w)
            } else {
                pick_first_existing(candidates, exists)
            }
        },
        None => pick_first_existing(candidates, exists),
    }
}

} // verus!
