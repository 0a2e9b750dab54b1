//! Directory listings: the value handed to the page renderer.
//!
//! A listing has exactly two fields — the display name of the directory and
//! the ordered sequence of its entry names.  The entries are exactly the
//! names read from the directory, sorted ascending in lexicographic order,
//! with nothing added, dropped or repeated; sorting is done here, so the
//! renderer receives them already ordered.

use vstd::prelude::*;
use vstd::seq_lib::to_multiset_insert;
use vstd::seq_lib::to_multiset_remove;
use vstd::multiset::group_multiset_axioms;
use vstd::multiset::Multiset;
use crate::lexord::lex_le;
use crate::lexord::lemma_lex_le_total;
use crate::lexord::lemma_lex_le_trans;
use crate::lexord::sorted;
use crate::lexord::str_le;

verus! {

/// A directory listing page: the displayed directory name and the sorted
/// entry names.  Built fresh from one directory read, never cached.
pub struct DirectoryListing {
    /// The display label of the listed directory: the request path.
    pub name: String,
    /// The names of the directory's immediate entries, sorted ascending.
    pub entries: Vec<String>,
}

/// The character sequences of a sequence of strings.
pub open spec fn views_of(s: Seq<String>) -> Seq<Seq<char>> {
    s.map_values(|x: String| x@)
}

/// Removing a string removes its view.
proof fn lemma_views_remove(s: Seq<String>, i: int)
    requires
        0 <= i < s.len(),
    ensures
        views_of(s.remove(i)) =~= views_of(s).remove(i),
{
}

/// Inserting a string inserts its view.
proof fn lemma_views_insert(s: Seq<String>, i: int, x: String)
    requires
        0 <= i <= s.len(),
    ensures
        views_of(s.insert(i, x)) =~= views_of(s).insert(i, x@),
{
}

/// Taking an element out of a multiset and putting it back changes nothing.
proof fn lemma_multiset_remove_insert(m: Multiset<Seq<char>>, y: Seq<char>)
    requires
        m.count(y) > 0,
    ensures
        m.remove(y).insert(y) =~= m,
{
    broadcast use group_multiset_axioms;

}

/// Sorts the entry names ascending in lexicographic order.  The result is
/// sorted and holds exactly the names it was given, with the same
/// multiplicities: nothing is added, omitted or duplicated.
pub fn sort_entries(entries: &mut Vec<String>)
    ensures
        sorted(views_of(final(entries)@)),
        views_of(final(entries)@).to_multiset() == views_of(old(entries)@).to_multiset(),
        final(entries)@.len() == old(entries)@.len(),
{
    if entries.len() <= 1 {
        return ;
    }
    let mut i: usize = 1;
    while i < entries.len()
        invariant
            1 <= i <= entries@.len(),
            entries@.len() == old(entries)@.len(),
            sorted(views_of(entries@).take(i as int)),
            views_of(entries@).to_multiset() == views_of(old(entries)@).to_multiset(),
        decreases entries@.len() - i,
    {
        let ghost pre = entries@;
        let ghost v = views_of(entries@);
        let ghost x = v[i as int];
        let mut j: usize = 0;
        while j < i && !str_le(entries[i].as_str(), entries[j].as_str())
            invariant
                0 <= j <= i < entries@.len(),
                v == views_of(entries@),
                x == v[i as int],
                forall|k: int| 0 <= k < j ==> lex_le(#[trigger] v[k], x),
            decreases i - j,
        {
            proof {
                lemma_lex_le_total(x, v[j as int]);
            }
            j = j + 1;
        }
        proof {
            assert(j == i || lex_le(x, v[j as int]));
        }
        let moved = entries.remove(i);
        entries.insert(j, moved);
        proof {
            let ii = i as int;
            let jj = j as int;
            let t = v.remove(ii).insert(jj, x);
            lemma_views_remove(pre, ii);
            lemma_views_insert(pre.remove(ii), jj, moved);
            let w = views_of(entries@);
            assert(moved@ == x);
            assert(w =~= t);
            // Where each name stands after the shift.
            assert(t.len() == v.len());
            assert forall|k: int| 0 <= k < jj implies t[k] == v[k] by {}
            assert(t[jj] == x);
            assert forall|k: int| jj < k <= ii implies t[k] == v[k - 1] by {}
            assert forall|k: int| ii < k < t.len() implies t[k] == v[k] by {}
            // The old sorted prefix, element by element.
            assert forall|p: int, q: int| 0 <= p < q < ii implies lex_le(v[p], v[q]) by {
                assert(v.take(ii)[p] == v[p]);
                assert(v.take(ii)[q] == v[q]);
            }
            // The grown prefix is sorted.
            assert forall|p: int, q: int| 0 <= p < q <= ii implies lex_le(t[p], t[q]) by {
                if q == jj {
                    assert(lex_le(v[p], x));
                } else if p == jj {
                    assert(q > jj);
                    assert(lex_le(x, v[jj]));
                    if q - 1 > jj {
                        lemma_lex_le_trans(x, v[jj], v[q - 1]);
                    }
                }
            }
            assert forall|p: int, q: int| 0 <= p < q < ii + 1 implies lex_le(
                #[trigger] w.take(ii + 1)[p],
                #[trigger] w.take(ii + 1)[q],
            ) by {
                assert(w.take(ii + 1)[p] == t[p]);
                assert(w.take(ii + 1)[q] == t[q]);
            }
            assert(sorted(w.take(ii + 1)));
            // The shift kept the names: one was taken out and put back.
            to_multiset_remove(v, ii);
            to_multiset_insert(v.remove(ii), jj, x);
            assert(v.contains(v[ii]));
            v.to_multiset_ensures();
            assert(v.to_multiset().count(x) > 0);
            lemma_multiset_remove_insert(v.to_multiset(), x);
            assert(w.to_multiset() == v.to_multiset());
        }
        i = i + 1;
    }
    proof {
        assert(views_of(entries@).take(entries@.len() as int) =~= views_of(entries@));
    }
}

} // verus!
