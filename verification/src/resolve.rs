//! What to do with an uploaded file once the server has said which posts
//! it matches: update the post with the same content, or create a new one.

use crate::draft::{DraftView, MetadataDraft, Safety};
use crate::merge::{
    contains_id, items, lemma_dedup_no_duplicates, lemma_merge_optional_idempotent,
    lemma_merged_source_idempotent, lemma_merged_source_lines, lemma_push_contains,
    merge_optional, merge_relations, merge_source, merge_tags, merged_source, optional_ids,
    optional_lines, optional_text, optional_texts, plain_lines,
};
use crate::text::texts;
use vstd::prelude::*;

verus! {

/// The bit pattern of the single-precision number 0.75.
pub const CLOSE_DISTANCE_BITS: u32 = 0x3F40_0000;

/// The bit pattern of positive infinity in single precision.
pub const INFINITE_DISTANCE_BITS: u32 = 0x7F80_0000;

/// Whether a distance, given by the bit pattern of a single-precision
/// number, is 0.75 or more. Among the patterns without a sign bit the
/// order of the numbers is the order of the patterns; those above infinity
/// are no numbers, and those with a sign bit are zero or less.
pub open spec fn is_close(distance_bits: u32) -> bool {
    CLOSE_DISTANCE_BITS <= distance_bits <= INFINITE_DISTANCE_BITS
}

/// Whether a distance is 0.75 or more.
pub fn is_close_match(distance_bits: u32) -> (r: bool)
    ensures
        r == is_close(distance_bits),
{
    CLOSE_DISTANCE_BITS <= distance_bits && distance_bits <= INFINITE_DISTANCE_BITS
}

/// A post that looks like the uploaded file.
#[derive(Clone, Copy, Debug, PartialEq, Eq, Structural)]
pub struct SimilarMatch {
    pub post_id: u32,
    /// The distance that the server reports, as the bit pattern of a
    /// single-precision number.
    pub distance_bits: u32,
}

/// A tag of a post on the server, under all its names.
#[derive(Clone, Debug)]
pub struct RemoteTag {
    pub names: Vec<String>,
}

/// A post as the server holds it.
#[derive(Clone, Debug)]
pub struct PostSummary {
    pub id: u32,
    pub version: Option<u32>,
    pub tags: Option<Vec<RemoteTag>>,
    pub source: Option<String>,
    pub safety: Option<Safety>,
    pub relations: Option<Vec<u32>>,
}

/// What the server answers to a reverse search.
#[derive(Clone, Debug)]
pub struct ReverseSearchResult {
    /// The post with the very same content.
    pub exact_match: Option<PostSummary>,
    /// The posts that look alike, in the server's order.
    pub similar_matches: Vec<SimilarMatch>,
}

/// The request to send for an uploaded file.
#[derive(Clone, Debug)]
pub enum UploadAction {
    /// Update the post `post_id` with `request`.
    Update { post_id: u32, request: MetadataDraft },
    /// Create a post from `request`.
    Create { request: MetadataDraft },
}

/// The names of each tag, in order.
pub open spec fn tag_names(tags: Seq<RemoteTag>) -> Seq<Seq<Seq<char>>> {
    Seq::new(tags.len(), |i: int| texts(tags[i].names@))
}

/// A post on the server as plain mathematical values.
pub ghost struct SummaryView {
    pub id: u32,
    pub version: Option<u32>,
    pub tags: Option<Seq<Seq<Seq<char>>>>,
    pub source: Option<Seq<char>>,
    pub safety: Option<Safety>,
    pub relations: Option<Seq<u32>>,
}

/// The answer to a reverse search as plain mathematical values.
pub ghost struct SearchView {
    pub exact_match: Option<SummaryView>,
    pub similar_matches: Seq<SimilarMatch>,
}

/// A request as plain mathematical values.
pub ghost enum ActionView {
    Update { post_id: u32, request: DraftView },
    Create { request: DraftView },
}

impl View for PostSummary {
    type V = SummaryView;

    open spec fn view(&self) -> SummaryView {
        SummaryView {
            id: self.id,
            version: self.version,
            tags: match self.tags {
                Some(t) => Some(tag_names(t@)),
                None => None,
            },
            source: optional_text(self.source),
            safety: self.safety,
            relations: optional_ids(self.relations),
        }
    }
}

impl View for ReverseSearchResult {
    type V = SearchView;

    open spec fn view(&self) -> SearchView {
        SearchView {
            exact_match: match self.exact_match {
                Some(p) => Some(p@),
                None => None,
            },
            similar_matches: self.similar_matches@,
        }
    }
}

impl View for UploadAction {
    type V = ActionView;

    open spec fn view(&self) -> ActionView {
        match self {
            UploadAction::Update { post_id, request } => ActionView::Update {
                post_id: *post_id,
                request: request@,
            },
            UploadAction::Create { request } => ActionView::Create { request: request@ },
        }
    }
}

/// The numbers of the posts that are close enough, in the server's order,
/// each once.
pub open spec fn related(similar: Seq<SimilarMatch>) -> Seq<u32>
    decreases similar.len(),
{
    if similar.len() == 0 {
        Seq::empty()
    } else {
        let init = related(similar.drop_last());
        let last = similar.last();
        if is_close(last.distance_bits) && !init.contains(last.post_id) {
            init.push(last.post_id)
        } else {
            init
        }
    }
}

/// A post is related exactly when one of the matches names it and is
/// close enough, and no post is related twice.
pub proof fn lemma_related(similar: Seq<SimilarMatch>)
    ensures
        related(similar).no_duplicates(),
        forall|id: u32|
            related(similar).contains(id) <==> exists|i: int|
                0 <= i < similar.len() && #[trigger] similar[i].post_id == id && is_close(
                    similar[i].distance_bits,
                ),
    decreases similar.len(),
{
    if similar.len() > 0 {
        let init = similar.drop_last();
        let last = similar.last();
        lemma_related(init);
        assert forall|id: u32|
            related(similar).contains(id) <==> exists|i: int|
                0 <= i < similar.len() && #[trigger] similar[i].post_id == id && is_close(
                    similar[i].distance_bits,
                ) by {
            lemma_push_contains(related(init), last.post_id, id);
            if related(init).contains(id) {
                let i = choose|i: int|
                    0 <= i < init.len() && #[trigger] init[i].post_id == id && is_close(
                        init[i].distance_bits,
                    );
                assert(similar[i].post_id == id);
            }
            if exists|i: int|
                0 <= i < similar.len() && #[trigger] similar[i].post_id == id && is_close(
                    similar[i].distance_bits,
                ) {
                let i = choose|i: int|
                    0 <= i < similar.len() && #[trigger] similar[i].post_id == id && is_close(
                        similar[i].distance_bits,
                    );
                if i < init.len() {
                    assert(init[i].post_id == id);
                }
            }
        }
    }
}

/// The numbers of the posts that are close enough, each once.
pub fn related_posts(similar: &Vec<SimilarMatch>) -> (r: Vec<u32>)
    ensures
        r@ == related(similar@),
        r@.no_duplicates(),
{
    let mut r: Vec<u32> = Vec::new();
    let mut i: usize = 0;
    assert(similar@.take(0) =~= Seq::<SimilarMatch>::empty());
    while i < similar.len()
        invariant
            i <= similar.len(),
            r@ == related(similar@.take(i as int)),
        decreases similar.len() - i,
    {
        assert(similar@.take(i + 1).drop_last() == similar@.take(i as int));
        assert(similar@.take(i + 1).last() == similar@[i as int]);
        let m = &similar[i];
        if is_close_match(m.distance_bits) && !contains_id(&r, m.post_id) {
            r.push(m.post_id);
        }
        i += 1;
    }
    assert(similar@.take(similar.len() as int) == similar@);
    proof {
        lemma_related(similar@);
    }
    r
}

/// The first name of each tag that has a name, in order.
pub open spec fn primary_names(tags: Seq<Seq<Seq<char>>>) -> Seq<Seq<char>>
    decreases tags.len(),
{
    if tags.len() == 0 {
        Seq::empty()
    } else {
        let init = primary_names(tags.drop_last());
        if tags.last().len() > 0 {
            init.push(tags.last()[0])
        } else {
            init
        }
    }
}

/// The first names of a post's tags; absent where the post lists none.
pub open spec fn optional_primary_names(tags: Option<Seq<Seq<Seq<char>>>>) -> Option<
    Seq<Seq<char>>,
> {
    match tags {
        Some(t) => Some(primary_names(t)),
        None => None,
    }
}

/// The first name of each tag that has a name.
pub fn primary_tag_names(tags: &Vec<RemoteTag>) -> (r: Vec<String>)
    ensures
        texts(r@) == primary_names(tag_names(tags@)),
{
    let ghost all = tag_names(tags@);
    let mut r: Vec<String> = Vec::new();
    let mut i: usize = 0;
    assert(all.take(0) =~= Seq::<Seq<Seq<char>>>::empty());
    while i < tags.len()
        invariant
            i <= tags.len(),
            all == tag_names(tags@),
            texts(r@) == primary_names(all.take(i as int)),
        decreases tags.len() - i,
    {
        let ghost before = texts(r@);
        assert(all.take(i + 1).drop_last() == all.take(i as int));
        assert(all.take(i + 1).last() == texts(tags@[i as int].names@));
        let names = &tags[i].names;
        if names.len() > 0 {
            r.push(names[0].clone());
            assert(texts(r@) =~= before.push(texts(names@)[0]));
        }
        i += 1;
    }
    assert(all.take(tags.len() as int) == all);
    r
}

/// The rating of an update: the draft's, else the post's, else `Unsafe`.
pub open spec fn merged_safety(existing: Option<Safety>, draft: Option<Safety>) -> Safety {
    match draft {
        Some(s) => s,
        None => match existing {
            Some(s) => s,
            None => Safety::Unsafe,
        },
    }
}

/// The update of a post on the server by a draft. Tags, relations and the
/// lines of the source are those of both, the post's first, each once. The
/// version is the post's. Notes, flags and content are left out.
pub open spec fn merged_draft(existing: SummaryView, draft: DraftView) -> DraftView {
    DraftView {
        version: existing.version,
        tags: merge_optional(optional_primary_names(existing.tags), draft.tags),
        safety: Some(merged_safety(existing.safety, draft.safety)),
        source: merged_source(existing.source, draft.source),
        relations: merge_optional(existing.relations, draft.relations),
        notes: None,
        flags: None,
        content_url: None,
        content_token: None,
        anonymous: Some(false),
    }
}

/// The update of a post on the server by a draft.
pub fn merge_with_existing(existing: &PostSummary, draft: &MetadataDraft) -> (r: MetadataDraft)
    ensures
        r@ == merged_draft(existing@, draft@),
        r@.well_formed(),
        existing.safety is None && draft.safety is None ==> r.safety == Some(Safety::Unsafe),
{
    let existing_tags = match &existing.tags {
        Some(t) => Some(primary_tag_names(t)),
        None => None,
    };
    let tags = merge_tags(&existing_tags, &draft.tags);
    let safety = match draft.safety {
        Some(s) => s,
        None => match existing.safety {
            Some(s) => s,
            None => Safety::Unsafe,
        },
    };
    let source = merge_source(&existing.source, &draft.source);
    let relations = merge_relations(&existing.relations, &draft.relations);
    proof {
        lemma_merged_source_lines(optional_text(existing.source), optional_text(draft.source));
        lemma_dedup_no_duplicates(
            items(optional_texts(existing_tags)) + items(optional_texts(draft.tags)),
        );
        lemma_dedup_no_duplicates(
            items(optional_ids(existing.relations)) + items(optional_ids(draft.relations)),
        );
    }
    MetadataDraft {
        version: existing.version,
        tags,
        safety: Some(safety),
        source,
        relations,
        notes: None,
        flags: None,
        content_url: None,
        content_token: None,
        anonymous: Some(false),
    }
}

/// A draft with the posts that look like the file as its relations. Where
/// the server names no such post at all, the draft is left as it is.
pub open spec fn with_relations(draft: DraftView, similar: Seq<SimilarMatch>) -> DraftView {
    if similar.len() == 0 {
        draft
    } else {
        DraftView { relations: Some(related(similar)), ..draft }
    }
}

/// The request for a file: an update of the post with the same content
/// where the server knows one, else a new post.
pub open spec fn resolved(search: SearchView, draft: DraftView) -> ActionView {
    let linked = with_relations(draft, search.similar_matches);
    match search.exact_match {
        Some(existing) => ActionView::Update {
            post_id: existing.id,
            request: merged_draft(existing, linked),
        },
        None => ActionView::Create { request: linked },
    }
}

impl ActionView {
    /// The fields that the request carries.
    pub open spec fn request(self) -> DraftView {
        match self {
            ActionView::Update { request, .. } => request,
            ActionView::Create { request } => request,
        }
    }
}

/// Decides between update and creation. A file whose content the server
/// holds already is never created again: the answer is an update of that
/// very post exactly when the search found one.
pub fn resolve(search: &ReverseSearchResult, draft: MetadataDraft) -> (r: UploadAction)
    ensures
        r@ == resolved(search@, draft@),
        search.exact_match is Some <==> r is Update,
        search.exact_match is None <==> r is Create,
        r matches UploadAction::Update { post_id, .. } ==> search.exact_match matches Some(p)
            && post_id == p.id,
        draft@.well_formed() ==> r@.request().well_formed(),
{
    let mut linked = draft;
    if search.similar_matches.len() > 0 {
        linked.relations = Some(related_posts(&search.similar_matches));
    }
    match &search.exact_match {
        Some(existing) => UploadAction::Update {
            post_id: existing.id,
            request: merge_with_existing(existing, &linked),
        },
        None => UploadAction::Create { request: linked },
    }
}

/// Tags that have one name each.
pub open spec fn single_names(tags: Seq<Seq<char>>) -> Seq<Seq<Seq<char>>> {
    Seq::new(tags.len(), |i: int| seq![tags[i]])
}

/// The post that the server holds once it has taken in a request.
pub open spec fn updated_post(id: u32, request: DraftView) -> SummaryView {
    SummaryView {
        id,
        version: request.version,
        tags: match request.tags {
            Some(t) => Some(single_names(t)),
            None => None,
        },
        source: request.source,
        safety: request.safety,
        relations: request.relations,
    }
}

/// Tags with one name each have those names as their first names.
pub proof fn lemma_primary_of_single_names(tags: Seq<Seq<char>>)
    ensures
        primary_names(single_names(tags)) == tags,
    decreases tags.len(),
{
    if tags.len() == 0 {
        assert(primary_names(single_names(tags)) =~= tags);
    } else {
        lemma_primary_of_single_names(tags.drop_last());
        assert(single_names(tags).drop_last() =~= single_names(tags.drop_last()));
        assert(single_names(tags).last() == seq![tags.last()]);
        assert(tags.drop_last().push(tags.last()) =~= tags);
    }
}

/// Merging a draft into a post that was updated with that draft already
/// gives the same request once more: no tag, relation or line is added a
/// second time. This holds where no line of the two source texts is empty
/// or ends with a carriage return.
pub proof fn lemma_update_is_idempotent(existing: SummaryView, draft: DraftView)
    requires
        plain_lines(optional_lines(existing.source)),
        plain_lines(optional_lines(draft.source)),
    ensures
        merged_draft(updated_post(existing.id, merged_draft(existing, draft)), draft)
            == merged_draft(existing, draft),
{
    let once = merged_draft(existing, draft);
    let twice = merged_draft(updated_post(existing.id, once), draft);
    if once.tags is Some {
        lemma_primary_of_single_names(once.tags->0);
    }
    lemma_merge_optional_idempotent(optional_primary_names(existing.tags), draft.tags);
    lemma_merge_optional_idempotent(existing.relations, draft.relations);
    lemma_merged_source_idempotent(existing.source, draft.source);
    assert(twice.tags == once.tags);
    assert(twice.relations == once.relations);
    assert(twice.source == once.source);
}

} // verus!
