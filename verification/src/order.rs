//! The order of texts by their characters, and sorting by it.

use crate::text::{pieces, texts, to_chars, to_texts};
use vstd::prelude::*;

verus! {

/// Whether `a` stands before `b`, or is `b`, in the order of the
/// dictionary over the numbers of the characters. This is also the order
/// of the texts' bytes in UTF-8.
pub open spec fn text_le(a: Seq<char>, b: Seq<char>) -> bool
    decreases a.len(),
{
    if a.len() == 0 {
        true
    } else if b.len() == 0 {
        false
    } else if a[0] != b[0] {
        a[0] < b[0]
    } else {
        text_le(a.drop_first(), b.drop_first())
    }
}

/// Whether each text stands before those that follow it, or is the same.
pub open spec fn sorted(s: Seq<Seq<char>>) -> bool {
    forall|i: int, j: int| 0 <= i < j < s.len() ==> text_le(s[i], s[j])
}

/// Of two texts one stands before the other, or they are the same.
pub proof fn lemma_text_le_total(a: Seq<char>, b: Seq<char>)
    ensures
        text_le(a, b) || text_le(b, a),
    decreases a.len(),
{
    if a.len() > 0 && b.len() > 0 && a[0] == b[0] {
        lemma_text_le_total(a.drop_first(), b.drop_first());
    }
}

/// What stands before a text stands before all that the text stands before.
pub proof fn lemma_text_le_transitive(a: Seq<char>, b: Seq<char>, c: Seq<char>)
    requires
        text_le(a, b),
        text_le(b, c),
    ensures
        text_le(a, c),
    decreases a.len(),
{
    if a.len() > 0 && b.len() > 0 && c.len() > 0 && a[0] == b[0] && b[0] == c[0] {
        lemma_text_le_transitive(a.drop_first(), b.drop_first(), c.drop_first());
    }
}

/// Two texts that stand before each other are the same.
pub proof fn lemma_text_le_antisymmetric(a: Seq<char>, b: Seq<char>)
    requires
        text_le(a, b),
        text_le(b, a),
    ensures
        a == b,
    decreases a.len(),
{
    if a.len() == 0 || b.len() == 0 {
        assert(a.len() == 0 && b.len() == 0);
        assert(a =~= b);
    } else {
        assert(a[0] == b[0]);
        let x = a.drop_first();
        let y = b.drop_first();
        lemma_text_le_antisymmetric(x, y);
        assert(a.len() == b.len());
        assert forall|i: int| 0 <= i < a.len() implies a[i] == b[i] by {
            if i > 0 {
                assert(a[i] == x[i - 1]);
                assert(b[i] == y[i - 1]);
            }
        }
        assert(a =~= b);
    }
}

/// Whether `a` stands before `b` or is `b`.
pub fn is_text_le(a: &Vec<char>, b: &Vec<char>) -> (r: bool)
    ensures
        r == text_le(a@, b@),
{
    let mut i: usize = 0;
    assert(a@.skip(0) == a@ && b@.skip(0) == b@);
    while i < a.len() && i < b.len()
        invariant
            i <= a.len(),
            i <= b.len(),
            text_le(a@, b@) == text_le(a@.skip(i as int), b@.skip(i as int)),
        decreases a.len() - i,
    {
        let x = a[i];
        let y = b[i];
        assert(a@.skip(i as int)[0] == x && b@.skip(i as int)[0] == y);
        if x != y {
            return x < y;
        }
        assert(a@.skip(i as int).drop_first() == a@.skip(i + 1));
        assert(b@.skip(i as int).drop_first() == b@.skip(i + 1));
        i += 1;
    }
    i == a.len()
}

/// The texts of `v` in order: the same texts, each as often as in `v`.
pub fn sort_texts(v: Vec<Vec<char>>) -> (r: Vec<Vec<char>>)
    ensures
        sorted(pieces(r@)),
        pieces(r@).to_multiset() == pieces(v@).to_multiset(),
{
    let mut out: Vec<Vec<char>> = Vec::new();
    let mut i: usize = 0;
    assert(pieces(v@).take(0) =~= Seq::<Seq<char>>::empty());
    assert(pieces(out@) =~= pieces(v@).take(0));
    while i < v.len()
        invariant
            i <= v.len(),
            sorted(pieces(out@)),
            pieces(out@).to_multiset() == pieces(v@).take(i as int).to_multiset(),
        decreases v.len() - i,
    {
        let item = v[i].clone();
        assert(item@ == pieces(v@)[i as int]);
        let mut k: usize = 0;
        while k < out.len() && is_text_le(&out[k], &item)
            invariant
                k <= out.len(),
                forall|j: int| 0 <= j < k ==> text_le(#[trigger] pieces(out@)[j], item@),
            decreases out.len() - k,
        {
            assert(pieces(out@)[k as int] == out@[k as int]@);
            k += 1;
        }
        let ghost before = pieces(out@);
        proof {
            if k < out.len() {
                assert(before[k as int] == out@[k as int]@);
                lemma_text_le_total(before[k as int], item@);
                assert forall|j: int| k <= j < before.len() implies text_le(
                    item@,
                    #[trigger] before[j],
                ) by {
                    if j > k {
                        lemma_text_le_transitive(item@, before[k as int], before[j]);
                    }
                }
            }
        }
        out.insert(k, item);
        proof {
            let after = before.insert(k as int, item@);
            assert(pieces(out@) =~= after);
            assert forall|a: int, b: int| 0 <= a < b < after.len() implies text_le(
                after[a],
                after[b],
            ) by {
                if b < k {
                    assert(after[a] == before[a] && after[b] == before[b]);
                } else if b == k {
                    assert(after[a] == before[a]);
                } else if a < k {
                    assert(after[a] == before[a] && after[b] == before[b - 1]);
                } else if a == k {
                    assert(after[b] == before[b - 1]);
                } else {
                    assert(after[a] == before[a - 1] && after[b] == before[b - 1]);
                }
            }
            vstd::seq_lib::to_multiset_insert(before, k as int, item@);
            let upto = pieces(v@).take(i as int);
            assert(pieces(v@).take(i + 1) =~= upto.push(item@));
            vstd::seq_lib::to_multiset_build(upto, item@);
        }
        i += 1;
    }
    assert(pieces(v@).take(v.len() as int) == pieces(v@));
    out
}

/// File names in order, as a directory listing sorted by name gives them.
pub fn sort_file_names(names: &Vec<String>) -> (r: Vec<String>)
    ensures
        sorted(texts(r@)),
        texts(r@).to_multiset() == texts(names@).to_multiset(),
{
    let mut all: Vec<Vec<char>> = Vec::new();
    let mut i: usize = 0;
    while i < names.len()
        invariant
            i <= names.len(),
            pieces(all@) == texts(names@).take(i as int),
        decreases names.len() - i,
    {
        let ghost before = pieces(all@);
        all.push(to_chars(names[i].as_str()));
        assert(pieces(all@) =~= before.push(names@[i as int]@));
        i += 1;
        assert(pieces(all@) =~= texts(names@).take(i as int));
    }
    assert(texts(names@).take(names.len() as int) == texts(names@));
    to_texts(&sort_texts(all))
}

} // verus!
