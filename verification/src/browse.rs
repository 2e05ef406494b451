use vstd::prelude::*;

use crate::text::lemma_lex_total;
use crate::text::lemma_lex_trans;
use crate::text::lex_le;
use crate::text::str_lex_le;

verus! {

/// One entry of a browsed directory.
#[derive(Debug)]
pub struct DirEntry {
    pub name: String,
    pub path: String,
    pub is_dir: bool,
}

/// The characters of `s` folded to lower case, as `str::to_lowercase`
/// folds them; a function of the characters alone.
pub uninterp spec fn lower_of(s: Seq<char>) -> Seq<char>;

/// Relies on `str::to_lowercase`: folds the string to lower case; the
/// result depends on the characters alone.
#[verifier::external_body]
pub(crate) fn lowercase(s: &str) -> (r: String)
    ensures
        r@ == lower_of(s@),
{
    s.to_lowercase()
}

/// Whether a directory entry is shown by the browser: only directories,
/// and not hidden ones.
pub open spec fn spec_browse_keep(e: DirEntry) -> bool {
    e.is_dir && !(e.name@.len() > 0 && e.name@[0] == '.')
}

/// Decides whether the browser shows this entry.
pub fn browse_keep(e: &DirEntry) -> (r: bool)
    ensures
        r == spec_browse_keep(*e),
{
    if !e.is_dir {
        return false;
    }
    if e.name.as_str().unicode_len() > 0 && e.name.as_str().get_char(0) == '.' {
        return false;
    }
    true
}

/// The browser's order on entries: by name folded to lower case.
pub open spec fn entry_le(a: DirEntry, b: DirEntry) -> bool {
    lex_le(lower_of(a.name@), lower_of(b.name@))
}

/// `entry_le` is total.
pub proof fn lemma_entry_le_total(a: DirEntry, b: DirEntry)
    ensures
        entry_le(a, b) || entry_le(b, a),
{
    lemma_lex_total(lower_of(a.name@), lower_of(b.name@));
}

/// `entry_le` is transitive.
pub proof fn lemma_entry_le_trans(a: DirEntry, b: DirEntry, c: DirEntry)
    requires
        entry_le(a, b),
        entry_le(b, c),
    ensures
        entry_le(a, c),
{
    lemma_lex_trans(lower_of(a.name@), lower_of(b.name@), lower_of(c.name@));
}

/// Decides `entry_le` on two entries.
fn entry_le_exec(a: &DirEntry, b: &DirEntry) -> (r: bool)
    ensures
        r == entry_le(*a, *b),
{
    let la = lowercase(a.name.as_str());
    let lb = lowercase(b.name.as_str());
    str_lex_le(la.as_str(), lb.as_str())
}

/// The entries stand in the browser's order.
pub open spec fn sorted_entries(s: Seq<DirEntry>) -> bool {
    forall|p: int, q: int| 0 <= p < q < s.len() ==> entry_le(s[p], s[q])
}

/// Keeps the entries the browser shows, in their original order.
pub fn filter_entries(v: Vec<DirEntry>) -> (r: Vec<DirEntry>)
    ensures
        r@ == v@.filter(|e: DirEntry| spec_browse_keep(e)),
{
    let mut r: Vec<DirEntry> = Vec::new();
    let mut i: usize = 0;
    while i < v.len()
        invariant
            i <= v@.len(),
            r@ == v@.take(i as int).filter(|e: DirEntry| spec_browse_keep(e)),
        decreases v@.len() - i,
    {
        let keep = browse_keep(&v[i]);
        if keep {
            let e = clone_entry(&v[i]);
            r.push(e);
        }
        proof {
            reveal(Seq::filter);
            assert(v@.take(i + 1).drop_last() =~= v@.take(i as int));
            assert(v@.take(i + 1).last() == v@[i as int]);
            assert(r@ =~= v@.take(i + 1).filter(|e: DirEntry| spec_browse_keep(e)));
        }
        i = i + 1;
    }
    proof {
        assert(v@.take(v@.len() as int) =~= v@);
    }
    r
}

fn clone_entry(e: &DirEntry) -> (r: DirEntry)
    ensures
        r == *e,
{
    DirEntry { name: e.name.clone(), path: e.path.clone(), is_dir: e.is_dir }
}

/// Sorts browsed entries by name folded to lower case. The same entries
/// come out that went in.
pub fn sort_entries(v: &mut Vec<DirEntry>)
    ensures
        final(v)@.to_multiset() == old(v)@.to_multiset(),
        sorted_entries(final(v)@),
        final(v)@.len() == old(v)@.len(),
{
    if v.len() <= 1 {
        return;
    }
    let mut i: usize = 1;
    while i < v.len()
        invariant
            1 <= i,
            i <= v@.len(),
            v@.len() == old(v)@.len(),
            v@.to_multiset() == old(v)@.to_multiset(),
            sorted_entries(v@.take(i as int)),
        decreases v@.len() - i,
    {
        let ghost before = v@;
        let x = v.remove(i);
        let mut j: usize = 0;
        while j < i && entry_le_exec(&v[j], &x)
            invariant
                j <= i,
                i < before.len(),
                v@ == before.remove(i as int),
                x == before[i as int],
                forall|k: int| 0 <= k < j ==> entry_le(#[trigger] v@[k], x),
            decreases i - j,
        {
            j = j + 1;
        }
        v.insert(j, x);
        proof {
            broadcast use vstd::seq_lib::to_multiset_insert;
            broadcast use vstd::seq_lib::to_multiset_remove;
            broadcast use vstd::seq_lib::group_to_multiset_ensures;
            broadcast use vstd::multiset::group_multiset_axioms;

            assert(before.contains(before[i as int]));
            assert(before.to_multiset().count(x) > 0);
            assert(v@.to_multiset() =~= before.to_multiset());

            let now = v@;
            assert(forall|k: int| 0 <= k < j ==> now[k] == before[k]);
            assert(now[j as int] == x);
            assert(forall|k: int| j < k <= i ==> now[k] == before[k - 1]);
            if (j as int) < i {
                assert(!entry_le(before[j as int], x));
                lemma_entry_le_total(before[j as int], x);
                assert(entry_le(x, before[j as int]));
            }
            assert forall|p: int, q: int| 0 <= p < q < i + 1 implies entry_le(now[p], now[q]) by {
                assert(sorted_entries(before.take(i as int)));
                if q < j {
                    assert(before.take(i as int)[p] == before[p]);
                    assert(before.take(i as int)[q] == before[q]);
                } else if q == j {
                    assert(now[q] == x);
                    assert(entry_le(now[p], x));
                } else {
                    let tk = before.take(i as int);
                    assert(forall|k: int| 0 <= k < i ==> tk[k] == before[k]);
                    if p < j {
                        if j < q - 1 {
                            assert(entry_le(tk[j as int], tk[q - 1]));
                            lemma_entry_le_trans(before[p], before[j as int], before[q - 1]);
                        }
                    } else if p == j {
                        assert(now[p] == x);
                        assert(entry_le(x, before[j as int]));
                        if j < q - 1 {
                            assert(entry_le(tk[j as int], tk[q - 1]));
                            lemma_entry_le_trans(x, before[j as int], before[q - 1]);
                        }
                    } else {
                        assert(now[p] == before[p - 1]);
                        assert(entry_le(tk[p - 1], tk[q - 1]));
                    }
                }
            }
            assert(sorted_entries(v@.take(i + 1)));
        }
        i = i + 1;
    }
    proof {
        assert(v@.take(v@.len() as int) =~= v@);
        assert(sorted_entries(v@));
    }
}

/// The directory view the browser returns: only visible directories,
/// sorted by name folded to lower case.
pub fn browse_entries(v: Vec<DirEntry>) -> (r: Vec<DirEntry>)
    ensures
        r@.to_multiset() == v@.filter(|e: DirEntry| spec_browse_keep(e)).to_multiset(),
        sorted_entries(r@),
{
    let mut kept = filter_entries(v);
    sort_entries(&mut kept);
    kept
}

} // verus!
