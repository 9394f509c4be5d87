//! The editable fields of a post before they are submitted.

use crate::merge::{optional_ids, optional_text, optional_texts};
use crate::text::{split, Separator};
use vstd::prelude::*;

verus! {

/// How safe for work a post is.
#[derive(Clone, Copy, Debug, PartialEq, Eq, Structural)]
pub enum Safety {
    Safe,
    Sketchy,
    Unsafe,
}

/// A note shown on a post.
#[derive(Clone, Debug)]
pub struct Note {
    /// The corners of the note's outline, each a list of coordinates.
    pub polygon: Vec<Vec<u8>>,
    pub text: String,
}

/// The fields of a post that a create or an update request carries. An
/// absent field is left out of the request, which leaves it untouched on
/// the server.
#[derive(Clone, Debug)]
pub struct MetadataDraft {
    /// The server's version of the post; present only for an update.
    pub version: Option<u32>,
    pub tags: Option<Vec<String>>,
    pub safety: Option<Safety>,
    pub source: Option<String>,
    pub relations: Option<Vec<u32>>,
    pub notes: Option<Vec<Note>>,
    pub flags: Option<Vec<String>>,
    pub content_url: Option<String>,
    /// The handle of the uploaded temporary file.
    pub content_token: Option<String>,
    pub anonymous: Option<bool>,
}

/// A draft as plain mathematical values.
pub ghost struct DraftView {
    pub version: Option<u32>,
    pub tags: Option<Seq<Seq<char>>>,
    pub safety: Option<Safety>,
    pub source: Option<Seq<char>>,
    pub relations: Option<Seq<u32>>,
    pub notes: Option<Seq<Note>>,
    pub flags: Option<Seq<Seq<char>>>,
    pub content_url: Option<Seq<char>>,
    pub content_token: Option<Seq<char>>,
    pub anonymous: Option<bool>,
}

impl View for MetadataDraft {
    type V = DraftView;

    open spec fn view(&self) -> DraftView {
        DraftView {
            version: self.version,
            tags: optional_texts(self.tags),
            safety: self.safety,
            source: optional_text(self.source),
            relations: optional_ids(self.relations),
            notes: match self.notes {
                Some(n) => Some(n@),
                None => None,
            },
            flags: optional_texts(self.flags),
            content_url: optional_text(self.content_url),
            content_token: optional_text(self.content_token),
            anonymous: self.anonymous,
        }
    }
}

impl DraftView {
    /// No tag and no related post occurs twice, and no two lines of the
    /// source text are the same.
    pub open spec fn well_formed(self) -> bool {
        &&& self.tags matches Some(t) ==> t.no_duplicates()
        &&& self.relations matches Some(r) ==> r.no_duplicates()
        &&& self.source matches Some(s) ==> split(s, Separator::Char('\n')).no_duplicates()
    }
}

impl DraftView {
    /// The draft that carries nothing but the mark that the upload is not
    /// anonymous.
    pub open spec fn empty() -> DraftView {
        DraftView {
            version: None,
            tags: None,
            safety: None,
            source: None,
            relations: None,
            notes: None,
            flags: None,
            content_url: None,
            content_token: None,
            anonymous: Some(false),
        }
    }
}

impl MetadataDraft {
    /// A draft without content: the handle of the uploaded file is filled
    /// in later.
    pub fn empty() -> (d: MetadataDraft)
        ensures
            d@ == DraftView::empty(),
            d@.well_formed(),
    {
        MetadataDraft {
            version: None,
            tags: None,
            safety: None,
            source: None,
            relations: None,
            notes: None,
            flags: None,
            content_url: None,
            content_token: None,
            anonymous: Some(false),
        }
    }

    /// A draft that carries nothing but the content token.
    pub fn new(token: String) -> (d: MetadataDraft)
        ensures
            d@ == (DraftView { content_token: Some(token@), ..DraftView::empty() }),
            d@.well_formed(),
    {
        let mut d = MetadataDraft::empty();
        d.content_token = Some(token);
        d
    }

    /// The draft with the handle of the uploaded file.
    pub fn with_token(self, token: String) -> (d: MetadataDraft)
        ensures
            d@ == (DraftView { content_token: Some(token@), ..self@ }),
    {
        let mut d = self;
        d.content_token = Some(token);
        d
    }
}

} // verus!
