//! Lexicographic ordering of file names.
//!
//! Directory listings are presented in ascending lexicographic order of the
//! entry names, comparing character codepoints from the front.  This module
//! defines that order, proves it is a total order, provides an executable
//! comparison, and shows that a sorted arrangement of given entries is
//! unique — which is what makes listing generation deterministic.

use vstd::prelude::*;
use vstd::seq_lib::group_to_multiset_ensures;
use vstd::string::StrSliceExecFns;

verus! {

/// `a` comes no later than `b` in lexicographic codepoint order.
pub open spec fn lex_le(a: Seq<char>, b: Seq<char>) -> bool
    decreases a.len(),
{
    if a.len() == 0 {
        true
    } else if b.len() == 0 {
        false
    } else if a[0] == b[0] {
        lex_le(a.drop_first(), b.drop_first())
    } else {
        a[0] < b[0]
    }
}

/// The order is reflexive.
pub proof fn lemma_lex_le_refl(a: Seq<char>)
    ensures
        lex_le(a, a),
    decreases a.len(),
{
    if a.len() > 0 {
        lemma_lex_le_refl(a.drop_first());
    }
}

/// The order is total: any two names are comparable.
pub proof fn lemma_lex_le_total(a: Seq<char>, b: Seq<char>)
    ensures
        lex_le(a, b) || lex_le(b, a),
    decreases a.len(),
{
    if a.len() > 0 && b.len() > 0 && a[0] == b[0] {
        lemma_lex_le_total(a.drop_first(), b.drop_first());
    }
}

/// The order is antisymmetric: names below each other are equal.
pub proof fn lemma_lex_le_antisym(a: Seq<char>, b: Seq<char>)
    requires
        lex_le(a, b),
        lex_le(b, a),
    ensures
        a == b,
    decreases a.len(),
{
    if a.len() == 0 {
        assert(b.len() == 0);
        assert(a =~= b);
    } else {
        assert(a[0] == b[0]);
        lemma_lex_le_antisym(a.drop_first(), b.drop_first());
        assert(a.len() == b.len());
        assert forall|i: int| 0 <= i < a.len() implies a[i] == b[i] by {
            if i > 0 {
                assert(a.drop_first()[i - 1] == b.drop_first()[i - 1]);
            }
        }
        assert(a =~= b);
    }
}

/// The order is transitive.
pub proof fn lemma_lex_le_trans(a: Seq<char>, b: Seq<char>, c: Seq<char>)
    requires
        lex_le(a, b),
        lex_le(b, c),
    ensures
        lex_le(a, c),
    decreases a.len(),
{
    if a.len() > 0 && b.len() > 0 && c.len() > 0 {
        if a[0] == b[0] && b[0] == c[0] {
            lemma_lex_le_trans(a.drop_first(), b.drop_first(), c.drop_first());
        }
    }
}

/// Executable lexicographic comparison: decides `lex_le` on the views.
pub fn str_le(a: &str, b: &str) -> (r: bool)
    ensures
        r == lex_le(a@, b@),
{
    let la = a.unicode_len();
    let lb = b.unicode_len();
    let mut i: usize = 0;
    proof {
        assert(a@.skip(0) =~= a@);
        assert(b@.skip(0) =~= b@);
    }
    while i < la && i < lb
        invariant
            0 <= i <= la,
            0 <= i <= lb,
            la == a@.len(),
            lb == b@.len(),
            lex_le(a@, b@) == lex_le(a@.skip(i as int), b@.skip(i as int)),
        decreases la - i,
    {
        let ca = a.get_char(i);
        let cb = b.get_char(i);
        proof {
            assert(a@.skip(i as int)[0] == a@[i as int]);
            assert(b@.skip(i as int)[0] == b@[i as int]);
        }
        if ca != cb {
            return ca < cb;
        }
        proof {
            assert(a@.skip(i as int).drop_first() =~= a@.skip(i + 1));
            assert(b@.skip(i as int).drop_first() =~= b@.skip(i + 1));
        }
        i = i + 1;
    }
    proof {
        if i == la {
            assert(a@.skip(i as int).len() == 0);
        } else {
            assert(i == lb);
            assert(b@.skip(i as int).len() == 0);
            assert(a@.skip(i as int).len() > 0);
        }
    }
    i >= la
}

/// A sequence of names that ascends in lexicographic order.
pub open spec fn sorted(s: Seq<Seq<char>>) -> bool {
    forall|i: int, j: int| 0 <= i < j < s.len() ==> lex_le(#[trigger] s[i], #[trigger] s[j])
}

/// The first element of a sorted sequence is below every element.
proof fn lemma_sorted_first_least(s: Seq<Seq<char>>, k: int)
    requires
        sorted(s),
        0 <= k < s.len(),
    ensures
        lex_le(s[0], s[k]),
{
    if k == 0 {
        lemma_lex_le_refl(s[0]);
    }
}

/// Sorting is deterministic: two sorted sequences that hold the same names
/// with the same multiplicities are equal.  Repeating a listing request
/// against unchanged contents therefore yields the identical listing.
pub proof fn lemma_sorted_unique(a: Seq<Seq<char>>, b: Seq<Seq<char>>)
    requires
        sorted(a),
        sorted(b),
        a.to_multiset() == b.to_multiset(),
    ensures
        a == b,
    decreases a.len(),
{
    broadcast use group_to_multiset_ensures;

    assert(a.to_multiset().len() == a.len());
    assert(b.to_multiset().len() == b.len());
    if a.len() == 0 {
        assert(a =~= b);
    } else {
        assert(a.contains(a[0]));
        assert(b.to_multiset().count(a[0]) > 0);
        assert(b.contains(a[0]));
        let ka = choose|k: int| 0 <= k < b.len() && b[k] == a[0];
        lemma_sorted_first_least(b, ka);
        assert(lex_le(b[0], a[0]));
        assert(a.contains(b[0])) by {
            assert(b.contains(b[0]));
            assert(a.to_multiset().count(b[0]) > 0);
        }
        let kb = choose|k: int| 0 <= k < a.len() && a[k] == b[0];
        lemma_sorted_first_least(a, kb);
        assert(lex_le(a[0], b[0]));
        lemma_lex_le_antisym(a[0], b[0]);
        let at = a.drop_first();
        let bt = b.drop_first();
        assert(at =~= a.remove(0));
        assert(bt =~= b.remove(0));
        assert(at.to_multiset() =~= a.to_multiset().remove(a[0]));
        assert(bt.to_multiset() =~= b.to_multiset().remove(b[0]));
        assert(at.to_multiset() == bt.to_multiset()) by {
            assert(a.to_multiset().remove(a[0]) =~= b.to_multiset().remove(b[0]));
        }
        assert forall|i: int, j: int| 0 <= i < j < at.len() implies lex_le(
            #[trigger] at[i],
            #[trigger] at[j],
        ) by {
            assert(at[i] == a[i + 1]);
            assert(at[j] == a[j + 1]);
        }
        assert(sorted(at));
        assert forall|i: int, j: int| 0 <= i < j < bt.len() implies lex_le(
            #[trigger] bt[i],
            #[trigger] bt[j],
        ) by {
            assert(bt[i] == b[i + 1]);
            assert(bt[j] == b[j + 1]);
        }
        assert(sorted(bt));
        lemma_sorted_unique(at, bt);
        assert(a =~= b) by {
            assert(forall|i: int| 1 <= i < a.len() ==> a[i] == at[i - 1] && b[i] == bt[i - 1]);
        }
    }
}

} // verus!
