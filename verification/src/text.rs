//! Text as sequences of characters: whitespace, trimming, splitting and
//! line handling, each with the mathematical function it computes.

use vstd::prelude::*;

verus! {

/// Appending one character to a `String` appends it to the string's view.
pub assume_specification[ String::push ](s: &mut String, c: char)
    ensures
        final(s)@ == old(s)@.push(c),
;

/// What `str::to_lowercase` makes of a text: its Unicode lower-case form.
pub uninterp spec fn lowercase(s: Seq<char>) -> Seq<char>;

/// `str::to_lowercase`: the result is the lower-case form of the argument,
/// a function of the characters alone.
#[verifier::external_body]
pub(crate) fn to_lowercase(s: &str) -> (r: String)
    ensures
        r@ == lowercase(s@),
{
    s.to_lowercase()
}

/// The characters with the Unicode property `White_Space`.
pub open spec fn is_space(c: char) -> bool {
    let u = c as u32;
    ||| 0x09 <= u <= 0x0D
    ||| u == 0x20
    ||| u == 0x85
    ||| u == 0xA0
    ||| u == 0x1680
    ||| 0x2000 <= u <= 0x200A
    ||| u == 0x2028
    ||| u == 0x2029
    ||| u == 0x202F
    ||| u == 0x205F
    ||| u == 0x3000
}

/// Whether a character is white space.
pub fn is_whitespace(c: char) -> (r: bool)
    ensures
        r == is_space(c),
{
    let u: u32 = c as u32;
    (0x09 <= u && u <= 0x0D) || u == 0x20 || u == 0x85 || u == 0xA0 || u == 0x1680 || (0x2000 <= u
        && u <= 0x200A) || u == 0x2028 || u == 0x2029 || u == 0x202F || u == 0x205F || u == 0x3000
}

/// What separates the pieces of a text.
#[derive(Clone, Copy, Debug)]
pub enum Separator {
    /// One given character.
    Char(char),
    /// Any white-space character.
    Whitespace,
}

impl Separator {
    /// Whether `c` separates.
    pub open spec fn matches(self, c: char) -> bool {
        match self {
            Separator::Char(x) => c == x,
            Separator::Whitespace => is_space(c),
        }
    }

    /// Whether `c` separates.
    pub fn is_match(&self, c: char) -> (r: bool)
        ensures
            r == self.matches(c),
    {
        match self {
            Separator::Char(x) => c == *x,
            Separator::Whitespace => is_whitespace(c),
        }
    }
}

/// The views of a vector of strings, in order.
pub open spec fn texts(v: Seq<String>) -> Seq<Seq<char>> {
    Seq::new(v.len(), |i: int| v[i]@)
}

/// The views of a vector of character vectors, in order.
pub open spec fn pieces(v: Seq<Vec<char>>) -> Seq<Seq<char>> {
    Seq::new(v.len(), |i: int| v[i]@)
}

/// The characters of a text.
pub fn to_chars(s: &str) -> (v: Vec<char>)
    ensures
        v@ == s@,
{
    let mut v: Vec<char> = Vec::new();
    for c in it: s.chars()
        invariant
            v@ == it.seq().take(it.index()),
            it.seq() == s@,
    {
        v.push(c);
    }
    v
}

/// The text that the characters make.
pub fn to_text(v: &Vec<char>) -> (s: String)
    ensures
        s@ == v@,
{
    let mut s = String::new();
    let mut i: usize = 0;
    while i < v.len()
        invariant
            i <= v.len(),
            s@ == v@.take(i as int),
        decreases v.len() - i,
    {
        s.push(v[i]);
        i += 1;
    }
    s
}

/// All of `v` converted to strings.
pub fn to_texts(v: &Vec<Vec<char>>) -> (r: Vec<String>)
    ensures
        texts(r@) == pieces(v@),
{
    let mut r: Vec<String> = Vec::new();
    let mut i: usize = 0;
    while i < v.len()
        invariant
            i <= v.len(),
            r.len() == i,
            texts(r@) == pieces(v@.take(i as int)),
        decreases v.len() - i,
    {
        let ghost before = r@;
        r.push(to_text(&v[i]));
        i += 1;
        assert forall|j: int| 0 <= j < i implies texts(r@)[j] == pieces(v@.take(i as int))[j] by {
            if j < i - 1 {
                assert(texts(before)[j] == pieces(v@.take(i - 1))[j]);
            }
        }
        assert(texts(r@) =~= pieces(v@.take(i as int)));
    }
    assert(v@.take(v.len() as int) == v@);
    r
}

/// `s` without its leading white space.
pub open spec fn trim_start(s: Seq<char>) -> Seq<char>
    decreases s.len(),
{
    if s.len() > 0 && is_space(s.first()) {
        trim_start(s.drop_first())
    } else {
        s
    }
}

/// `s` without its trailing white space.
pub open spec fn trim_end(s: Seq<char>) -> Seq<char>
    decreases s.len(),
{
    if s.len() > 0 && is_space(s.last()) {
        trim_end(s.drop_last())
    } else {
        s
    }
}

/// `s` without leading and trailing white space.
pub open spec fn trim(s: Seq<char>) -> Seq<char> {
    trim_end(trim_start(s))
}

/// `v` without leading and trailing white space.
pub fn trim_chars(v: &Vec<char>) -> (r: Vec<char>)
    ensures
        r@ == trim(v@),
{
    let n = v.len();
    let mut start: usize = 0;
    assert(v@.skip(0) == v@);
    while start < n && is_whitespace(v[start])
        invariant
            start <= n == v.len(),
            trim_start(v@) == trim_start(v@.skip(start as int)),
        decreases n - start,
    {
        assert(v@.skip(start as int).drop_first() == v@.skip(start as int + 1));
        start += 1;
    }
    let mut end: usize = n;
    while end > start && is_whitespace(v[end - 1])
        invariant
            start <= end <= n == v.len(),
            trim_start(v@) == v@.skip(start as int),
            trim(v@) == trim_end(v@.subrange(start as int, end as int)),
        decreases end,
    {
        assert(v@.subrange(start as int, end as int).drop_last() == v@.subrange(
            start as int,
            end as int - 1,
        ));
        end -= 1;
    }
    let mut r: Vec<char> = Vec::new();
    let mut i: usize = start;
    while i < end
        invariant
            start <= i <= end <= v.len(),
            r@ == v@.subrange(start as int, i as int),
        decreases end - i,
    {
        r.push(v[i]);
        i += 1;
    }
    r
}

/// The pieces of `s` between separators: one more than there are
/// separators in `s`, none of them holding a separator.
pub open spec fn split(s: Seq<char>, sep: Separator) -> Seq<Seq<char>>
    decreases s.len(),
{
    if s.len() == 0 {
        seq![Seq::empty()]
    } else {
        let init = split(s.drop_last(), sep);
        if sep.matches(s.last()) {
            init.push(Seq::empty())
        } else {
            init.drop_last().push(init.last().push(s.last()))
        }
    }
}

/// A split has at least one piece.
pub proof fn lemma_split_nonempty(s: Seq<char>, sep: Separator)
    ensures
        split(s, sep).len() >= 1,
    decreases s.len(),
{
    if s.len() > 0 {
        lemma_split_nonempty(s.drop_last(), sep);
    }
}

/// The pieces of `v` between separators.
pub fn split_chars(v: &Vec<char>, sep: Separator) -> (r: Vec<Vec<char>>)
    ensures
        pieces(r@) == split(v@, sep),
{
    let mut done: Vec<Vec<char>> = Vec::new();
    let mut current: Vec<char> = Vec::new();
    let mut i: usize = 0;
    assert(v@.take(0) =~= Seq::<char>::empty());
    assert(pieces(done@).push(current@) =~= split(v@.take(0), sep));
    while i < v.len()
        invariant
            i <= v.len(),
            pieces(done@).push(current@) == split(v@.take(i as int), sep),
        decreases v.len() - i,
    {
        let c = v[i];
        let ghost before = pieces(done@).push(current@);
        assert(v@.take(i + 1).drop_last() == v@.take(i as int));
        assert(v@.take(i + 1).last() == c);
        if sep.is_match(c) {
            done.push(current);
            current = Vec::new();
            assert(pieces(done@).push(current@) =~= before.push(Seq::empty()));
        } else {
            current.push(c);
            assert(pieces(done@).push(current@) =~= before.drop_last().push(before.last().push(c)));
        }
        i += 1;
    }
    assert(v@.take(v.len() as int) == v@);
    let ghost before = pieces(done@).push(current@);
    done.push(current);
    assert(pieces(done@) =~= before);
    done
}

/// The pieces of `ps` that are not empty, in order.
pub open spec fn non_empty(ps: Seq<Seq<char>>) -> Seq<Seq<char>> {
    ps.filter(|p: Seq<char>| p.len() > 0)
}

/// The maximal runs of characters of `s` that are not white space.
pub open spec fn words(s: Seq<char>) -> Seq<Seq<char>> {
    non_empty(split(s, Separator::Whitespace))
}

/// The maximal runs of characters of `v` that are not white space.
pub fn split_words(v: &Vec<char>) -> (r: Vec<Vec<char>>)
    ensures
        pieces(r@) == words(v@),
{
    let all = split_chars(v, Separator::Whitespace);
    let mut r: Vec<Vec<char>> = Vec::new();
    let mut i: usize = 0;
    proof {
        reveal(Seq::filter);
        assert(pieces(all@).take(0) =~= Seq::<Seq<char>>::empty());
        assert(pieces(r@) =~= non_empty(pieces(all@).take(0)));
    }
    while i < all.len()
        invariant
            i <= all.len(),
            pieces(r@) == non_empty(pieces(all@).take(i as int)),
        decreases all.len() - i,
    {
        let ghost before = pieces(r@);
        proof {
            reveal(Seq::filter);
            assert(pieces(all@).take(i + 1).drop_last() == pieces(all@).take(i as int));
            assert(pieces(all@).take(i + 1).last() == all@[i as int]@);
        }
        if all[i].len() > 0 {
            r.push(all[i].clone());
            assert(pieces(r@) =~= before.push(all@[i as int]@));
        }
        i += 1;
    }
    assert(pieces(all@).take(all.len() as int) == pieces(all@));
    r
}

/// `s` with every `from` turned into `to`.
pub open spec fn replace(s: Seq<char>, from: char, to: char) -> Seq<char> {
    Seq::new(
        s.len(),
        |i: int|
            if s[i] == from {
                to
            } else {
                s[i]
            },
    )
}

/// `v` with every `from` turned into `to`.
pub fn replace_char(v: &Vec<char>, from: char, to: char) -> (r: Vec<char>)
    ensures
        r@ == replace(v@, from, to),
{
    let mut r: Vec<char> = Vec::new();
    let mut i: usize = 0;
    while i < v.len()
        invariant
            i <= v.len(),
            r@ == replace(v@.take(i as int), from, to),
        decreases v.len() - i,
    {
        let c = v[i];
        if c == from {
            r.push(to);
        } else {
            r.push(c);
        }
        i += 1;
        assert(r@ =~= replace(v@.take(i as int), from, to));
    }
    assert(v@.take(v.len() as int) == v@);
    r
}

/// `line` without one carriage return at its end, if it has one.
pub open spec fn strip_cr(line: Seq<char>) -> Seq<char> {
    if line.len() > 0 && line.last() == '\r' {
        line.drop_last()
    } else {
        line
    }
}

/// The lines of `s`. A line ends at a line feed; a carriage return just
/// before that line feed belongs to the line ending. What follows the last
/// line feed is a line of its own unless it is empty.
pub open spec fn lines(s: Seq<char>) -> Seq<Seq<char>> {
    let parts = split(s, Separator::Char('\n'));
    let ended = Seq::new((parts.len() - 1) as nat, |i: int| strip_cr(parts[i]));
    if parts.last().len() > 0 {
        ended.push(parts.last())
    } else {
        ended
    }
}

/// The lines of `v`.
pub fn split_lines(v: &Vec<char>) -> (r: Vec<Vec<char>>)
    ensures
        pieces(r@) == lines(v@),
{
    let parts = split_chars(v, Separator::Char('\n'));
    proof {
        lemma_split_nonempty(v@, Separator::Char('\n'));
    }
    let ghost spec_parts = split(v@, Separator::Char('\n'));
    let n = parts.len();
    let mut r: Vec<Vec<char>> = Vec::new();
    let mut i: usize = 0;
    while i + 1 < n
        invariant
            n == parts.len(),
            n >= 1,
            i + 1 <= n,
            r.len() == i,
            pieces(parts@) == spec_parts,
            forall|j: int| 0 <= j < i ==> (#[trigger] r@[j])@ == strip_cr(spec_parts[j]),
        decreases n - i,
    {
        let part = &parts[i];
        assert(part@ == spec_parts[i as int]) by {
            assert(pieces(parts@)[i as int] == part@);
        }
        let mut line: Vec<char> = part.clone();
        if line.len() > 0 && line[line.len() - 1] == '\r' {
            line.pop();
        }
        r.push(line);
        i += 1;
    }
    let last = &parts[n - 1];
    assert(last@ == spec_parts.last()) by {
        assert(pieces(parts@)[n - 1] == last@);
    }
    let ghost ended = Seq::new((spec_parts.len() - 1) as nat, |i: int| strip_cr(spec_parts[i]));
    assert(pieces(r@) =~= ended);
    if last.len() > 0 {
        r.push(last.clone());
        assert(pieces(r@) =~= ended.push(spec_parts.last()));
    }
    r
}

/// The lines of `ls`, each but the last followed by a line feed.
pub open spec fn join_lines(ls: Seq<Seq<char>>) -> Seq<char>
    decreases ls.len(),
{
    if ls.len() == 0 {
        Seq::empty()
    } else if ls.len() == 1 {
        ls[0]
    } else {
        join_lines(ls.drop_last()) + seq!['\n'] + ls.last()
    }
}

/// The lines of `ls`, each but the last followed by a line feed.
pub fn join_texts(ls: &Vec<String>) -> (r: String)
    ensures
        r@ == join_lines(texts(ls@)),
{
    let mut r: Vec<char> = Vec::new();
    let mut i: usize = 0;
    assert(texts(ls@).take(0) =~= Seq::<Seq<char>>::empty());
    while i < ls.len()
        invariant
            i <= ls.len(),
            r@ == join_lines(texts(ls@).take(i as int)),
        decreases ls.len() - i,
    {
        let ghost before = r@;
        if i > 0 {
            r.push('\n');
        }
        let line = to_chars(ls[i].as_str());
        let mut k: usize = 0;
        let ghost start = r@;
        while k < line.len()
            invariant
                k <= line.len(),
                r@ == start + line@.take(k as int),
            decreases line.len() - k,
        {
            r.push(line[k]);
            k += 1;
        }
        assert(line@.take(line.len() as int) == line@);
        proof {
            let now = texts(ls@).take(i + 1);
            assert(now.drop_last() == texts(ls@).take(i as int));
            assert(now.last() == line@);
            if i == 0 {
                assert(now.len() == 1);
                assert(r@ =~= now[0]);
            } else {
                assert(r@ =~= before + seq!['\n'] + line@);
            }
        }
        i += 1;
    }
    assert(texts(ls@).take(ls.len() as int) == texts(ls@));
    to_text(&r)
}

/// Whether no character of `s` is a separator.
pub open spec fn free_of(s: Seq<char>, sep: Separator) -> bool {
    forall|i: int| 0 <= i < s.len() ==> !sep.matches(#[trigger] s[i])
}

/// No piece of a split holds a separator.
pub proof fn lemma_split_pieces_free(s: Seq<char>, sep: Separator)
    ensures
        forall|k: int| 0 <= k < split(s, sep).len() ==> free_of(#[trigger] split(s, sep)[k], sep),
    decreases s.len(),
{
    if s.len() > 0 {
        lemma_split_pieces_free(s.drop_last(), sep);
        lemma_split_nonempty(s.drop_last(), sep);
        let init = split(s.drop_last(), sep);
        assert forall|k: int| 0 <= k < split(s, sep).len() implies free_of(
            #[trigger] split(s, sep)[k],
            sep,
        ) by {
            if k < init.len() - 1 {
                assert(split(s, sep)[k] == init[k]);
            } else if sep.matches(s.last()) {
                if k == init.len() - 1 {
                    assert(split(s, sep)[k] == init[k]);
                }
            } else {
                assert(free_of(init[init.len() - 1], sep));
            }
        }
    }
}

/// Text without separators, put behind `s`, lengthens the last piece.
pub proof fn lemma_split_append_plain(s: Seq<char>, t: Seq<char>, sep: Separator)
    requires
        free_of(t, sep),
    ensures
        split(s + t, sep) == split(s, sep).drop_last().push(split(s, sep).last() + t),
    decreases t.len(),
{
    lemma_split_nonempty(s, sep);
    if t.len() == 0 {
        assert(s + t =~= s);
        assert(split(s, sep).last() + t =~= split(s, sep).last());
        assert(split(s, sep).drop_last().push(split(s, sep).last()) =~= split(s, sep));
    } else {
        let init = t.drop_last();
        assert(free_of(init, sep)) by {
            assert forall|i: int| 0 <= i < init.len() implies !sep.matches(#[trigger] init[i]) by {
                assert(init[i] == t[i]);
            }
        }
        lemma_split_append_plain(s, init, sep);
        assert((s + t).drop_last() =~= s + init);
        assert((s + t).last() == t.last());
        assert(!sep.matches(t[t.len() - 1]));
        let base = split(s, sep);
        let before = base.drop_last().push(base.last() + init);
        assert(before.drop_last() =~= base.drop_last());
        assert((base.last() + init).push(t.last()) =~= base.last() + t);
    }
}

/// Lines without line feeds come back from their joined text as they were.
pub proof fn lemma_split_join(ls: Seq<Seq<char>>)
    requires
        ls.len() >= 1,
        forall|k: int| 0 <= k < ls.len() ==> free_of(#[trigger] ls[k], Separator::Char('\n')),
    ensures
        split(join_lines(ls), Separator::Char('\n')) == ls,
    decreases ls.len(),
{
    let sep = Separator::Char('\n');
    let empty = Seq::<char>::empty();
    if ls.len() == 1 {
        assert(empty + ls[0] =~= ls[0]);
        lemma_split_append_plain(empty, ls[0], sep);
        assert(split(empty, sep) =~= seq![empty]);
        assert(seq![empty].drop_last().push(empty + ls[0]) =~= ls);
    } else {
        let init = ls.drop_last();
        assert forall|k: int| 0 <= k < init.len() implies free_of(#[trigger] init[k], sep) by {
            assert(init[k] == ls[k]);
        }
        lemma_split_join(init);
        let head = join_lines(init) + seq!['\n'];
        assert(head.drop_last() =~= join_lines(init));
        assert(head.last() == '\n');
        assert(split(head, sep) == init.push(empty));
        lemma_split_append_plain(head, ls.last(), sep);
        assert(empty + ls.last() =~= ls.last());
        assert(init.push(empty).drop_last().push(ls.last()) =~= ls);
    }
}

/// No line of a text holds a line feed.
pub proof fn lemma_lines_free(s: Seq<char>)
    ensures
        forall|k: int|
            0 <= k < lines(s).len() ==> free_of(#[trigger] lines(s)[k], Separator::Char('\n')),
{
    let sep = Separator::Char('\n');
    let parts = split(s, sep);
    lemma_split_nonempty(s, sep);
    lemma_split_pieces_free(s, sep);
    assert forall|k: int| 0 <= k < lines(s).len() implies free_of(#[trigger] lines(s)[k], sep) by {
        if k < parts.len() - 1 {
            assert(free_of(parts[k], sep));
            assert(lines(s)[k] == strip_cr(parts[k]));
            assert forall|i: int| 0 <= i < strip_cr(parts[k]).len() implies !sep.matches(
                #[trigger] strip_cr(parts[k])[i],
            ) by {
                assert(strip_cr(parts[k])[i] == parts[k][i]);
            }
        } else {
            assert(free_of(parts[parts.len() - 1], sep));
        }
    }
}

/// Whether two texts hold the same characters.
pub fn equal(a: &str, b: &str) -> (r: bool)
    ensures
        r == (a@ == b@),
{
    let x = to_chars(a);
    let y = to_chars(b);
    if x.len() != y.len() {
        return false;
    }
    let mut i: usize = 0;
    while i < x.len()
        invariant
            i <= x.len() == y.len(),
            x@ == a@,
            y@ == b@,
            forall|j: int| 0 <= j < i ==> x@[j] == y@[j],
        decreases x.len() - i,
    {
        if x[i] != y[i] {
            assert(a@[i as int] != b@[i as int]);
            return false;
        }
        i += 1;
    }
    assert(x@ =~= y@);
    true
}

/// A string of its own with the characters of `s`.
pub fn owned(s: &str) -> (r: String)
    ensures
        r@ == s@,
{
    to_text(&to_chars(s))
}

/// `a` followed by `b`.
pub fn append(a: &str, b: &str) -> (r: String)
    ensures
        r@ == a@ + b@,
{
    let mut chars = to_chars(a);
    let tail = to_chars(b);
    let mut i: usize = 0;
    while i < tail.len()
        invariant
            i <= tail.len(),
            chars@ == a@ + tail@.take(i as int),
        decreases tail.len() - i,
    {
        chars.push(tail[i]);
        i += 1;
    }
    assert(tail@.take(tail.len() as int) == tail@);
    to_text(&chars)
}

} // verus!
