use vstd::prelude::*;

use crate::text::lemma_lex_total;
use crate::text::lemma_lex_trans;
use crate::text::lex_le;
use crate::text::str_eq;
use crate::text::str_lex_le;

verus! {

/// One node of a workspace file tree: a directory with its children, or
/// a plain file. `path` is the path relative to the workspace root.
#[derive(Debug)]
pub struct FileNode {
    pub name: String,
    pub path: String,
    pub is_directory: bool,
    pub children: Option<Vec<FileNode>>,
}

/// A request to read the file at `path`, relative to a session's
/// workspace.
#[derive(Debug)]
pub struct ReadFileRequest {
    pub path: String,
}

/// A request to write `content` to the file at `path`, relative to a
/// session's workspace.
#[derive(Debug)]
pub struct WriteFileRequest {
    pub path: String,
    pub content: String,
}

/// The content of a file that was read.
#[derive(Debug)]
pub struct FileContent {
    pub content: String,
}

/// Names that the file tree never descends into or lists.
pub open spec fn spec_should_ignore(name: Seq<char>) -> bool {
    ||| name == ".git"@
    ||| name == "node_modules"@
    ||| name == "target"@
    ||| name == ".next"@
    ||| name == "dist"@
    ||| name == "build"@
    ||| name == ".DS_Store"@
}

/// Whether a directory entry is left out of the file tree.
pub fn should_ignore(name: &str) -> (r: bool)
    ensures
        r == spec_should_ignore(name@),
{
    str_eq(name, ".git") || str_eq(name, "node_modules") || str_eq(name, "target") || str_eq(
        name,
        ".next",
    ) || str_eq(name, "dist") || str_eq(name, "build") || str_eq(name, ".DS_Store")
}

/// The order of a file tree's children: directories before files, and
/// within each group by name.
pub open spec fn node_le(a: FileNode, b: FileNode) -> bool {
    if a.is_directory != b.is_directory {
        a.is_directory
    } else {
        lex_le(a.name@, b.name@)
    }
}

/// `node_le` is total.
pub proof fn lemma_node_le_total(a: FileNode, b: FileNode)
    ensures
        node_le(a, b) || node_le(b, a),
{
    if a.is_directory == b.is_directory {
        lemma_lex_total(a.name@, b.name@);
    }
}

/// `node_le` is transitive.
pub proof fn lemma_node_le_trans(a: FileNode, b: FileNode, c: FileNode)
    requires
        node_le(a, b),
        node_le(b, c),
    ensures
        node_le(a, c),
{
    if a.is_directory == b.is_directory && b.is_directory == c.is_directory {
        lemma_lex_trans(a.name@, b.name@, c.name@);
    }
}

/// Decides `node_le` on two nodes.
fn node_le_exec(a: &FileNode, b: &FileNode) -> (r: bool)
    ensures
        r == node_le(*a, *b),
{
    if a.is_directory != b.is_directory {
        a.is_directory
    } else {
        str_lex_le(a.name.as_str(), b.name.as_str())
    }
}

/// The children stand in the tree's order: directories before files,
/// each group by name.
pub open spec fn sorted_nodes(s: Seq<FileNode>) -> bool {
    forall|p: int, q: int| 0 <= p < q < s.len() ==> node_le(s[p], s[q])
}

/// Sorts a directory's children into the tree's order: directories
/// before files, each group by name. The same nodes come out that went
/// in.
pub fn sort_children(v: &mut Vec<FileNode>)
    ensures
        final(v)@.to_multiset() == old(v)@.to_multiset(),
        sorted_nodes(final(v)@),
        final(v)@.len() == old(v)@.len(),
{
    if v.len() <= 1 {
        return;
    }
    let mut i: usize = 1;
    while i < v.len()
        invariant
            1 <= i,
            i <= v@.len(),
            v@.len() == old(v)@.len(),
            v@.to_multiset() == old(v)@.to_multiset(),
            sorted_nodes(v@.take(i as int)),
        decreases v@.len() - i,
    {
        let ghost before = v@;
        let x = v.remove(i);
        let mut j: usize = 0;
        while j < i && node_le_exec(&v[j], &x)
            invariant
                j <= i,
                i < before.len(),
                v@ == before.remove(i as int),
                x == before[i as int],
                forall|k: int| 0 <= k < j ==> node_le(#[trigger] v@[k], x),
            decreases i - j,
        {
            j = j + 1;
        }
        v.insert(j, x);
        proof {
            broadcast use vstd::seq_lib::to_multiset_insert;
            broadcast use vstd::seq_lib::to_multiset_remove;
            broadcast use vstd::seq_lib::group_to_multiset_ensures;
            broadcast use vstd::multiset::group_multiset_axioms;

            assert(before.contains(before[i as int]));
            assert(before.to_multiset().count(x) > 0);
            assert(v@.to_multiset() =~= before.to_multiset());

            let now = v@;
            assert(forall|k: int| 0 <= k < j ==> now[k] == before[k]);
            assert(now[j as int] == x);
            assert(forall|k: int| j < k <= i ==> now[k] == before[k - 1]);
            if (j as int) < i {
                assert(!node_le(before[j as int], x));
                lemma_node_le_total(before[j as int], x);
                assert(node_le(x, before[j as int]));
            }
            assert forall|p: int, q: int| 0 <= p < q < i + 1 implies node_le(now[p], now[q]) by {
                assert(sorted_nodes(before.take(i as int)));
                if q < j {
                    assert(before.take(i as int)[p] == before[p]);
                    assert(before.take(i as int)[q] == before[q]);
                } else if q == j {
                    assert(now[q] == x);
                    assert(node_le(now[p], x));
                } else {
                    // q > j: now[q] == before[q - 1], with j <= q - 1 < i
                    if p < j {
                        if j < q - 1 {
                            assert(node_le(before[j as int], before[q - 1]));
                            lemma_node_le_trans(before[p], before[j as int], before[q - 1]);
                        }
                    } else if p == j {
                        assert(now[p] == x);
                        assert(node_le(x, before[j as int]));
                        if j < q - 1 {
                            assert(node_le(before[j as int], before[q - 1]));
                            lemma_node_le_trans(x, before[j as int], before[q - 1]);
                        }
                    } else {
                        assert(now[p] == before[p - 1]);
                        assert(node_le(before[p - 1], before[q - 1]));
                    }
                }
            }
            assert(sorted_nodes(v@.take(i + 1)));
        }
        i = i + 1;
    }
    proof {
        assert(v@.take(v@.len() as int) =~= v@);
        assert(sorted_nodes(v@));
    }
}

} // verus!
