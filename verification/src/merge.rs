//! Merging of tag lists, relation lists and source texts without
//! duplicates. What comes first stays first.

use crate::text::{
    free_of, join_lines, join_texts, lemma_lines_free, lemma_split_join, lines, split, split_lines, strip_cr, texts, to_chars, to_texts, Separator,
};
use vstd::prelude::*;

verus! {

/// `s` with every item kept at its first occurrence only.
pub open spec fn dedup<T>(s: Seq<T>) -> Seq<T>
    decreases s.len(),
{
    if s.len() == 0 {
        s
    } else {
        let init = dedup(s.drop_last());
        if init.contains(s.last()) {
            init
        } else {
            init.push(s.last())
        }
    }
}

/// The items of `a`, then those of `b` that are new, each once.
pub open spec fn merge_unique<T>(a: Seq<T>, b: Seq<T>) -> Seq<T> {
    dedup(a + b)
}

/// The items of an optional list; none where the list is absent.
pub open spec fn items<T>(a: Option<Seq<T>>) -> Seq<T> {
    match a {
        Some(s) => s,
        None => Seq::empty(),
    }
}

/// The merge of two optional lists: absent where the merge holds nothing.
pub open spec fn merge_optional<T>(a: Option<Seq<T>>, b: Option<Seq<T>>) -> Option<Seq<T>> {
    let all = merge_unique(items(a), items(b));
    if all.len() == 0 {
        None
    } else {
        Some(all)
    }
}

/// The views of an optional list of strings.
pub open spec fn optional_texts(a: Option<Vec<String>>) -> Option<Seq<Seq<char>>> {
    match a {
        Some(v) => Some(texts(v@)),
        None => None,
    }
}

/// The view of an optional list of integers.
pub open spec fn optional_ids(a: Option<Vec<u32>>) -> Option<Seq<u32>> {
    match a {
        Some(v) => Some(v@),
        None => None,
    }
}

/// The view of an optional string.
pub open spec fn optional_text(a: Option<String>) -> Option<Seq<char>> {
    match a {
        Some(s) => Some(s@),
        None => None,
    }
}

/// The lines of an optional text; none where the text is absent.
pub open spec fn optional_lines(a: Option<Seq<char>>) -> Seq<Seq<char>> {
    match a {
        Some(s) => lines(s),
        None => Seq::empty(),
    }
}

/// The merged source text: the lines of both texts, each once, joined by
/// line feeds; absent where there is no line at all.
pub open spec fn merged_source(a: Option<Seq<char>>, b: Option<Seq<char>>) -> Option<Seq<char>> {
    let all = merge_unique(optional_lines(a), optional_lines(b));
    if all.len() == 0 {
        None
    } else {
        Some(join_lines(all))
    }
}

/// An item is in `s.push(v)` exactly when it is in `s` or is `v`.
pub proof fn lemma_push_contains<T>(s: Seq<T>, v: T, x: T)
    ensures
        s.push(v).contains(x) <==> s.contains(x) || x == v,
{
    let t = s.push(v);
    if s.contains(x) {
        let i = choose|i: int| 0 <= i < s.len() && s[i] == x;
        assert(t[i] == x);
    }
    if x == v {
        assert(t[s.len() as int] == x);
    }
    if t.contains(x) {
        let i = choose|i: int| 0 <= i < t.len() && t[i] == x;
        if i < s.len() {
            assert(s[i] == x);
        }
    }
}

/// An item is in `dedup(s)` exactly when it is in `s`.
pub proof fn lemma_dedup_contains<T>(s: Seq<T>, x: T)
    ensures
        dedup(s).contains(x) <==> s.contains(x),
    decreases s.len(),
{
    if s.len() > 0 {
        let init = s.drop_last();
        let last = s.last();
        lemma_dedup_contains(init, x);
        lemma_dedup_contains(init, last);
        assert(init.push(last) =~= s);
        lemma_push_contains(init, last, x);
        lemma_push_contains(dedup(init), last, x);
    }
}

/// Nothing occurs twice in `dedup(s)`.
pub proof fn lemma_dedup_no_duplicates<T>(s: Seq<T>)
    ensures
        dedup(s).no_duplicates(),
    decreases s.len(),
{
    if s.len() > 0 {
        lemma_dedup_no_duplicates(s.drop_last());
    }
}

/// A list in which nothing occurs twice is left as it is.
pub proof fn lemma_dedup_fixed<T>(s: Seq<T>)
    requires
        s.no_duplicates(),
    ensures
        dedup(s) == s,
    decreases s.len(),
{
    if s.len() > 0 {
        let init = s.drop_last();
        lemma_dedup_fixed(init);
        if init.contains(s.last()) {
            let i = choose|i: int| 0 <= i < init.len() && init[i] == s.last();
            assert(s[i] == s[s.len() - 1]);
        }
        assert(init.push(s.last()) =~= s);
    }
}

/// Items that are all in `d` already add nothing to it.
pub proof fn lemma_dedup_absorbs<T>(d: Seq<T>, b: Seq<T>)
    requires
        d.no_duplicates(),
        forall|i: int| 0 <= i < b.len() ==> d.contains(#[trigger] b[i]),
    ensures
        dedup(d + b) == d,
    decreases b.len(),
{
    if b.len() == 0 {
        assert(d + b =~= d);
        lemma_dedup_fixed(d);
    } else {
        let init = b.drop_last();
        assert forall|i: int| 0 <= i < init.len() implies d.contains(#[trigger] init[i]) by {
            assert(init[i] == b[i]);
        }
        lemma_dedup_absorbs(d, init);
        assert((d + b).drop_last() =~= d + init);
        assert((d + b).last() == b.last());
        assert(d.contains(b[b.len() - 1]));
    }
}

/// Merging the same list in a second time changes nothing.
pub proof fn lemma_merge_idempotent<T>(a: Seq<T>, b: Seq<T>)
    ensures
        merge_unique(merge_unique(a, b), b) == merge_unique(a, b),
        merge_unique(a, b).no_duplicates(),
        forall|x: T| merge_unique(a, b).contains(x) <==> a.contains(x) || b.contains(x),
{
    let m = merge_unique(a, b);
    lemma_dedup_no_duplicates(a + b);
    assert forall|x: T| m.contains(x) <==> a.contains(x) || b.contains(x) by {
        lemma_dedup_contains(a + b, x);
        if a.contains(x) {
            let i = choose|i: int| 0 <= i < a.len() && a[i] == x;
            assert((a + b)[i] == x);
        }
        if b.contains(x) {
            let i = choose|i: int| 0 <= i < b.len() && b[i] == x;
            assert((a + b)[a.len() + i] == x);
        }
        if (a + b).contains(x) {
            let i = choose|i: int| 0 <= i < (a + b).len() && (a + b)[i] == x;
            if i < a.len() {
                assert(a[i] == x);
            } else {
                assert(b[i - a.len()] == x);
            }
        }
    }
    assert forall|i: int| 0 <= i < b.len() implies m.contains(#[trigger] b[i]) by {
        assert(b.contains(b[i]));
    }
    lemma_dedup_absorbs(m, b);
}

/// Merging a list with itself leaves each of its items once.
pub proof fn lemma_merge_with_itself<T>(a: Seq<T>)
    ensures
        merge_unique(a, a) == dedup(a),
{
    let d = dedup(a);
    lemma_dedup_no_duplicates(a);
    assert forall|i: int| 0 <= i < a.len() implies d.contains(#[trigger] a[i]) by {
        assert(a.contains(a[i]));
        lemma_dedup_contains(a, a[i]);
    }
    lemma_dedup_prefix(a, a);
    lemma_dedup_absorbs(d, a);
}

/// Removing duplicates from the front part first gives the same list.
pub proof fn lemma_dedup_prefix<T>(a: Seq<T>, b: Seq<T>)
    ensures
        dedup(a + b) == dedup(dedup(a) + b),
    decreases b.len(),
{
    if b.len() == 0 {
        assert(a + b =~= a);
        assert(dedup(a) + b =~= dedup(a));
        lemma_dedup_no_duplicates(a);
        lemma_dedup_fixed(dedup(a));
    } else {
        let init = b.drop_last();
        lemma_dedup_prefix(a, init);
        assert((a + b).drop_last() =~= a + init);
        assert((dedup(a) + b).drop_last() =~= dedup(a) + init);
        assert((a + b).last() == b.last());
        assert((dedup(a) + b).last() == b.last());
    }
}

/// Whether one of `v` reads as `s` does.
pub fn contains_text(v: &Vec<String>, s: &String) -> (r: bool)
    ensures
        r == texts(v@).contains(s@),
{
    let mut i: usize = 0;
    while i < v.len()
        invariant
            i <= v.len(),
            forall|j: int| 0 <= j < i ==> texts(v@)[j] != s@,
        decreases v.len() - i,
    {
        if v[i] == *s {
            assert(texts(v@)[i as int] == s@);
            return true;
        }
        i += 1;
    }
    false
}

/// Whether `id` is one of `v`.
pub fn contains_id(v: &Vec<u32>, id: u32) -> (r: bool)
    ensures
        r == v@.contains(id),
{
    let mut i: usize = 0;
    while i < v.len()
        invariant
            i <= v.len(),
            forall|j: int| 0 <= j < i ==> v@[j] != id,
        decreases v.len() - i,
    {
        if v[i] == id {
            return true;
        }
        i += 1;
    }
    false
}

/// `v` with every string kept at its first occurrence only.
pub fn dedup_texts(v: Vec<String>) -> (r: Vec<String>)
    ensures
        texts(r@) == dedup(texts(v@)),
{
    let mut r: Vec<String> = Vec::new();
    let mut i: usize = 0;
    assert(texts(v@).take(0) =~= Seq::<Seq<char>>::empty());
    while i < v.len()
        invariant
            i <= v.len(),
            texts(r@) == dedup(texts(v@).take(i as int)),
        decreases v.len() - i,
    {
        let ghost before = texts(r@);
        assert(texts(v@).take(i + 1).drop_last() == texts(v@).take(i as int));
        assert(texts(v@).take(i + 1).last() == v@[i as int]@);
        if !contains_text(&r, &v[i]) {
            r.push(v[i].clone());
            assert(texts(r@) =~= before.push(v@[i as int]@));
        }
        i += 1;
    }
    assert(texts(v@).take(v.len() as int) == texts(v@));
    r
}

/// `v` with every number kept at its first occurrence only.
pub fn dedup_ids(v: &Vec<u32>) -> (r: Vec<u32>)
    ensures
        r@ == dedup(v@),
{
    let mut r: Vec<u32> = Vec::new();
    let mut i: usize = 0;
    assert(v@.take(0) =~= Seq::<u32>::empty());
    while i < v.len()
        invariant
            i <= v.len(),
            r@ == dedup(v@.take(i as int)),
        decreases v.len() - i,
    {
        assert(v@.take(i + 1).drop_last() == v@.take(i as int));
        assert(v@.take(i + 1).last() == v@[i as int]);
        if !contains_id(&r, v[i]) {
            r.push(v[i]);
        }
        i += 1;
    }
    assert(v@.take(v.len() as int) == v@);
    r
}

/// A copy of `v` followed by a copy of `w`.
fn concat_texts(v: &Vec<String>, w: &Vec<String>) -> (r: Vec<String>)
    ensures
        texts(r@) == texts(v@) + texts(w@),
{
    let mut r: Vec<String> = Vec::new();
    let mut i: usize = 0;
    while i < v.len()
        invariant
            i <= v.len(),
            texts(r@) == texts(v@).take(i as int),
        decreases v.len() - i,
    {
        let ghost before = texts(r@);
        r.push(v[i].clone());
        assert(texts(r@) =~= before.push(v@[i as int]@));
        i += 1;
        assert(texts(r@) =~= texts(v@).take(i as int));
    }
    assert(texts(v@).take(v.len() as int) == texts(v@));
    let mut k: usize = 0;
    while k < w.len()
        invariant
            k <= w.len(),
            texts(r@) == texts(v@) + texts(w@).take(k as int),
        decreases w.len() - k,
    {
        let ghost before = texts(r@);
        r.push(w[k].clone());
        assert(texts(r@) =~= before.push(w@[k as int]@));
        k += 1;
        assert(texts(r@) =~= texts(v@) + texts(w@).take(k as int));
    }
    assert(texts(w@).take(w.len() as int) == texts(w@));
    r
}

/// The tags of both lists, each once; absent where there is none.
pub fn merge_tags(a: &Option<Vec<String>>, b: &Option<Vec<String>>) -> (r: Option<Vec<String>>)
    ensures
        optional_texts(r) == merge_optional(optional_texts(*a), optional_texts(*b)),
{
    let empty: Vec<String> = Vec::new();
    assert(texts(empty@) =~= Seq::<Seq<char>>::empty());
    let first = match a {
        Some(v) => v,
        None => &empty,
    };
    let second = match b {
        Some(v) => v,
        None => &empty,
    };
    let all = dedup_texts(concat_texts(first, second));
    if all.len() == 0 {
        None
    } else {
        Some(all)
    }
}

/// The post numbers of both lists, each once; absent where there is none.
pub fn merge_relations(a: &Option<Vec<u32>>, b: &Option<Vec<u32>>) -> (r: Option<Vec<u32>>)
    ensures
        optional_ids(r) == merge_optional(optional_ids(*a), optional_ids(*b)),
{
    let mut both: Vec<u32> = Vec::new();
    if let Some(v) = a {
        let mut i: usize = 0;
        while i < v.len()
            invariant
                i <= v.len(),
                both@ == v@.take(i as int),
            decreases v.len() - i,
        {
            both.push(v[i]);
            i += 1;
        }
        assert(v@.take(v.len() as int) == v@);
    }
    assert(both@ =~= items(optional_ids(*a)));
    if let Some(w) = b {
        let mut k: usize = 0;
        while k < w.len()
            invariant
                k <= w.len(),
                both@ == items(optional_ids(*a)) + w@.take(k as int),
            decreases w.len() - k,
        {
            both.push(w[k]);
            k += 1;
        }
        assert(w@.take(w.len() as int) == w@);
    }
    assert(both@ =~= items(optional_ids(*a)) + items(optional_ids(*b)));
    let all = dedup_ids(&both);
    if all.len() == 0 {
        None
    } else {
        Some(all)
    }
}

/// The lines of an optional text, as strings.
fn lines_of(a: &Option<String>) -> (r: Vec<String>)
    ensures
        texts(r@) == optional_lines(optional_text(*a)),
{
    match a {
        Some(s) => {
            let chars = to_chars(s.as_str());
            let ls = split_lines(&chars);
            to_texts(&ls)
        },
        None => {
            let r: Vec<String> = Vec::new();
            assert(texts(r@) =~= Seq::<Seq<char>>::empty());
            r
        },
    }
}

/// The lines of both texts, each once, joined by line feeds; absent where
/// there is no line at all.
pub fn merge_source(a: &Option<String>, b: &Option<String>) -> (r: Option<String>)
    ensures
        optional_text(r) == merged_source(optional_text(*a), optional_text(*b)),
{
    let first = lines_of(a);
    let second = lines_of(b);
    let all = dedup_texts(concat_texts(&first, &second));
    if all.len() == 0 {
        None
    } else {
        Some(join_texts(&all))
    }
}

/// The lines of a merged source text are the merged lines of the two
/// texts, and none of them occurs twice.
pub proof fn lemma_merged_source_lines(a: Option<Seq<char>>, b: Option<Seq<char>>)
    ensures
        merged_source(a, b) matches Some(s) ==> {
            &&& split(s, Separator::Char('\n')) == merge_unique(
                optional_lines(a),
                optional_lines(b),
            )
            &&& split(s, Separator::Char('\n')).no_duplicates()
        },
{
    let sep = Separator::Char('\n');
    let both = optional_lines(a) + optional_lines(b);
    let all = merge_unique(optional_lines(a), optional_lines(b));
    if all.len() > 0 {
        if a is Some {
            lemma_lines_free(a->0);
        }
        if b is Some {
            lemma_lines_free(b->0);
        }
        assert forall|k: int| 0 <= k < all.len() implies free_of(#[trigger] all[k], sep) by {
            assert(all.contains(all[k]));
            lemma_dedup_contains(both, all[k]);
            let i = choose|i: int| 0 <= i < both.len() && both[i] == all[k];
            if i < optional_lines(a).len() {
                assert(both[i] == optional_lines(a)[i]);
            } else {
                assert(both[i] == optional_lines(b)[i - optional_lines(a).len()]);
            }
        }
        lemma_split_join(all);
        lemma_dedup_no_duplicates(both);
    }
}

/// Merging the same optional list in a second time changes nothing.
pub proof fn lemma_merge_optional_idempotent<T>(a: Option<Seq<T>>, b: Option<Seq<T>>)
    ensures
        merge_optional(merge_optional(a, b), b) == merge_optional(a, b),
{
    let m = merge_unique(items(a), items(b));
    lemma_merge_idempotent(items(a), items(b));
    if m.len() == 0 {
        if items(b).len() > 0 {
            assert(items(b).contains(items(b)[0]));
            assert(m.contains(items(b)[0]));
        }
        assert(items(b) =~= Seq::<T>::empty());
        assert(Seq::<T>::empty() + items(b) =~= Seq::<T>::empty());
    }
}

/// Whether no line is empty or ends with a carriage return. Such lines
/// are read back from a text just as they were written into it.
pub open spec fn plain_lines(ls: Seq<Seq<char>>) -> bool {
    forall|k: int| 0 <= k < ls.len() ==> (#[trigger] ls[k]).len() > 0 && ls[k].last() != '\r'
}

/// The lines of a text that was joined from plain lines are those lines.
pub proof fn lemma_lines_of_joined(ls: Seq<Seq<char>>)
    requires
        ls.len() >= 1,
        plain_lines(ls),
        forall|k: int| 0 <= k < ls.len() ==> free_of(#[trigger] ls[k], Separator::Char('\n')),
    ensures
        lines(join_lines(ls)) == ls,
{
    lemma_split_join(ls);
    let parts = split(join_lines(ls), Separator::Char('\n'));
    let ended = Seq::new((parts.len() - 1) as nat, |i: int| strip_cr(parts[i]));
    assert(ended =~= ls.drop_last());
    assert(ls.drop_last().push(ls.last()) =~= ls);
}

/// Merging the same source text in a second time changes nothing, where
/// no line of the two texts is empty or ends with a carriage return.
pub proof fn lemma_merged_source_idempotent(a: Option<Seq<char>>, b: Option<Seq<char>>)
    requires
        plain_lines(optional_lines(a)),
        plain_lines(optional_lines(b)),
    ensures
        merged_source(merged_source(a, b), b) == merged_source(a, b),
{
    let sep = Separator::Char('\n');
    let la = optional_lines(a);
    let lb = optional_lines(b);
    let all = merge_unique(la, lb);
    lemma_merge_idempotent(la, lb);
    if all.len() == 0 {
        if lb.len() > 0 {
            assert(lb.contains(lb[0]));
            assert(all.contains(lb[0]));
        }
        assert(lb =~= Seq::<Seq<char>>::empty());
        assert(Seq::<Seq<char>>::empty() + lb =~= Seq::<Seq<char>>::empty());
    } else {
        if a is Some {
            lemma_lines_free(a->0);
        }
        if b is Some {
            lemma_lines_free(b->0);
        }
        assert forall|k: int| 0 <= k < all.len() implies free_of(#[trigger] all[k], sep)
            && all[k].len() > 0 && all[k].last() != '\r' by {
            assert(all.contains(all[k]));
            if la.contains(all[k]) {
                let i = choose|i: int| 0 <= i < la.len() && la[i] == all[k];
                assert(free_of(la[i], sep));
            } else {
                let i = choose|i: int| 0 <= i < lb.len() && lb[i] == all[k];
                assert(free_of(lb[i], sep));
            }
        }
        lemma_lines_of_joined(all);
    }
}

} // verus!
