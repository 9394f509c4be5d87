//! Which files of a directory are media files: those with one of the
//! known extensions, in any case.

use crate::text::{
    equal, lemma_split_nonempty, lowercase, pieces, split, split_chars, texts, to_chars,
    to_lowercase, to_text, Separator,
};
use vstd::prelude::*;

verus! {

/// The extension of a file name: what follows its last dot. A name
/// without a dot has none, nor has one whose only dot stands in front, nor
/// the name of the parent directory.
pub open spec fn extension_of(name: Seq<char>) -> Option<Seq<char>> {
    let parts = split(name, Separator::Char('.'));
    if parts.len() < 2 || name.len() == parts.last().len() + 1 || name == ".."@ {
        None
    } else {
        Some(parts.last())
    }
}

/// The extensions of media files, in lower case.
pub open spec fn is_media_extension(extension: Seq<char>) -> bool {
    ||| extension == "jpg"@
    ||| extension == "jpeg"@
    ||| extension == "png"@
    ||| extension == "mp4"@
    ||| extension == "webm"@
    ||| extension == "gif"@
    ||| extension == "swf"@
    ||| extension == "webp"@
}

/// Whether a file of this name is a media file.
pub open spec fn is_media_name(name: Seq<char>) -> bool {
    match extension_of(name) {
        Some(e) => is_media_extension(lowercase(e)),
        None => false,
    }
}

/// The extension of a file name.
pub fn file_extension(name: &str) -> (r: Option<String>)
    ensures
        match r {
            Some(e) => extension_of(name@) == Some(e@),
            None => extension_of(name@) is None,
        },
{
    let chars = to_chars(name);
    let parts = split_chars(&chars, Separator::Char('.'));
    proof {
        lemma_split_nonempty(name@, Separator::Char('.'));
    }
    assert(pieces(parts@).len() == parts.len());
    let last = &parts[parts.len() - 1];
    assert(pieces(parts@)[parts.len() - 1] == last@);
    if parts.len() < 2 {
        return None;
    }
    assert(chars.len() > 0);
    if chars.len() - 1 == last.len() || equal(name, "..") {
        None
    } else {
        Some(to_text(last))
    }
}

/// Whether an extension already in lower case is one of a media file.
pub fn is_known_extension(extension: &str) -> (r: bool)
    ensures
        r == is_media_extension(extension@),
{
    equal(extension, "jpg") || equal(extension, "jpeg") || equal(extension, "png") || equal(
        extension,
        "mp4",
    ) || equal(extension, "webm") || equal(extension, "gif") || equal(extension, "swf") || equal(
        extension,
        "webp",
    )
}

/// Whether a file of this name is a media file.
pub fn is_media_file(name: &str) -> (r: bool)
    ensures
        r == is_media_name(name@),
{
    match file_extension(name) {
        Some(e) => {
            let lowered = to_lowercase(e.as_str());
            is_known_extension(lowered.as_str())
        },
        None => false,
    }
}

/// The names of media files among `names`, in their order.
pub fn media_files(names: &Vec<String>) -> (r: Vec<String>)
    ensures
        texts(r@) == texts(names@).filter(|n: Seq<char>| is_media_name(n)),
{
    let ghost keep = |n: Seq<char>| is_media_name(n);
    let mut r: Vec<String> = Vec::new();
    let mut i: usize = 0;
    proof {
        reveal(Seq::filter);
        assert(texts(names@).take(0) =~= Seq::<Seq<char>>::empty());
    }
    while i < names.len()
        invariant
            i <= names.len(),
            keep == |n: Seq<char>| is_media_name(n),
            texts(r@) == texts(names@).take(i as int).filter(keep),
        decreases names.len() - i,
    {
        let ghost before = texts(r@);
        proof {
            reveal(Seq::filter);
            assert(texts(names@).take(i + 1).drop_last() == texts(names@).take(i as int));
            assert(texts(names@).take(i + 1).last() == names@[i as int]@);
        }
        if is_media_file(names[i].as_str()) {
            r.push(names[i].clone());
            assert(texts(r@) =~= before.push(names@[i as int]@));
        }
        i += 1;
    }
    assert(texts(names@).take(names.len() as int) == texts(names@));
    r
}

} // verus!
