use vstd::prelude::*;

use crate::wire::push_char;

verus! {

/// Helper for `spec_components`: the components finished so far and the
/// partial component being read, after the characters of `s`.
pub open spec fn spec_split_state(s: Seq<char>) -> (Seq<Seq<char>>, Seq<char>)
    decreases s.len(),
{
    if s.len() == 0 {
        (Seq::empty(), Seq::empty())
    } else {
        let (comps, cur) = spec_split_state(s.drop_last());
        let c = s.last();
        if c == '/' {
            if cur.len() == 0 {
                (comps, Seq::empty())
            } else {
                (comps.push(cur), Seq::empty())
            }
        } else {
            (comps, cur.push(c))
        }
    }
}

/// The components of a path string: the maximal runs of characters
/// between `/` separators, empty runs dropped.
pub open spec fn spec_components(s: Seq<char>) -> Seq<Seq<char>> {
    let (comps, cur) = spec_split_state(s);
    if cur.len() == 0 {
        comps
    } else {
        comps.push(cur)
    }
}

/// Splits a path string into its components.
pub fn path_components(s: &str) -> (r: Vec<String>)
    ensures
        crate::text::strs_view(r@) == spec_components(s@),
{
    let n = s.unicode_len();
    let mut comps: Vec<String> = Vec::new();
    let mut cur = String::new();
    let mut i: usize = 0;
    while i < n
        invariant
            n == s@.len(),
            i <= n,
            crate::text::strs_view(comps@) == spec_split_state(s@.take(i as int)).0,
            cur@ == spec_split_state(s@.take(i as int)).1,
        decreases n - i,
    {
        let c = s.get_char(i);
        if c == '/' {
            if !cur.as_str().is_empty() {
                comps.push(cur);
                cur = String::new();
            }
        } else {
            push_char(&mut cur, c);
        }
        proof {
            assert(s@.take(i + 1).drop_last() =~= s@.take(i as int));
            assert(s@.take(i + 1).last() == s@[i as int]);
            assert(crate::text::strs_view(comps@) =~= spec_split_state(s@.take(i + 1)).0);
            assert(cur@ =~= spec_split_state(s@.take(i + 1)).1);
        }
        i = i + 1;
    }
    proof {
        assert(s@.take(n as int) =~= s@);
    }
    if !cur.as_str().is_empty() {
        comps.push(cur);
    }
    proof {
        assert(crate::text::strs_view(comps@) =~= spec_components(s@));
    }
    comps
}

/// Whether the path with components `target` lies at or below the path
/// with components `root`: the root's components are a prefix of the
/// target's.
pub open spec fn spec_is_descendant(root: Seq<Seq<char>>, target: Seq<Seq<char>>) -> bool {
    root.is_prefix_of(target)
}

/// Decides whether the canonical path `target` lies at or below the
/// canonical path `root`, component-wise. A sibling whose name merely
/// extends the root's last component is not a descendant.
pub fn path_is_within(root: &str, target: &str) -> (r: bool)
    ensures
        r == spec_is_descendant(spec_components(root@), spec_components(target@)),
{
    let rc = path_components(root);
    let tc = path_components(target);
    let ghost rv = crate::text::strs_view(rc@);
    let ghost tv = crate::text::strs_view(tc@);
    if rc.len() > tc.len() {
        return false;
    }
    let mut i: usize = 0;
    while i < rc.len()
        invariant
            rv == crate::text::strs_view(rc@),
            tv == crate::text::strs_view(tc@),
            rv == spec_components(root@),
            tv == spec_components(target@),
            rc@.len() <= tc@.len(),
            i <= rc@.len(),
            forall|j: int| 0 <= j < i ==> rv[j] == tv[j],
        decreases rc@.len() - i,
    {
        if !crate::text::str_eq(rc[i].as_str(), tc[i].as_str()) {
            proof {
                assert(rv[i as int] != tv[i as int]);
                assert(!spec_is_descendant(rv, tv)) by {
                    if rv.is_prefix_of(tv) {
                        assert(rv =~= tv.subrange(0, rv.len() as int));
                        assert(rv[i as int] == tv.subrange(0, rv.len() as int)[i as int]);
                    }
                }
            }
            return false;
        }
        i = i + 1;
    }
    proof {
        assert(rv =~= tv.subrange(0, rv.len() as int));
    }
    true
}

/// Why a file request was refused before any file was touched.
#[derive(Debug, Clone, Copy, PartialEq, Eq, Structural)]
pub enum PathError {
    /// The requested path does not lie inside the workspace.
    OutsideWorkspace,
}

impl PathError {
    /// The message the control plane reports for this refusal.
    pub fn message(&self) -> (r: &'static str)
        ensures
            r@ == "Access denied: path outside workspace"@,
    {
        "Access denied: path outside workspace"
    }
}

/// Authorizes a file read or write: given the canonical workspace path
/// and the canonical path of the file (for a write, of its parent
/// directory), the request passes exactly when the latter lies at or
/// below the former.
pub fn authorize_path(canonical_workspace: &str, canonical_target: &str) -> (r: Result<
    (),
    PathError,
>)
    ensures
        r is Ok <==> spec_is_descendant(
            spec_components(canonical_workspace@),
            spec_components(canonical_target@),
        ),
        r is Err ==> r == Result::<(), PathError>::Err(PathError::OutsideWorkspace),
{
    if path_is_within(canonical_workspace, canonical_target) {
        Ok(())
    } else {
        Err(PathError::OutsideWorkspace)
    }
}

} // verus!
