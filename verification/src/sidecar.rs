//! The companions of a media file: a list of tags as plain text and a
//! descriptor in JSON, and the draft that is built from them.

use crate::draft::{DraftView, MetadataDraft, Safety};
use crate::json::{
    json_content, json_document, parse_json, value_as_array, value_as_str, value_get, JsonData,
};
use crate::merge::{
    dedup, dedup_texts, items, lemma_dedup_contains, lemma_dedup_no_duplicates,
    lemma_merged_source_lines, merge_source, merged_source, optional_text, optional_texts,
};
use crate::text::{
    append, equal, lowercase, owned, pieces, replace, replace_char, split, split_chars,
    split_words, texts, to_chars, to_lowercase, to_text, to_texts, trim, trim_chars, words,
    Separator,
};
use vstd::prelude::*;

verus! {

/// The name of the tag list that belongs to a media file: the whole file
/// name, its own extension included, followed by `.txt`.
pub fn txt_sidecar_name(file_name: &str) -> (r: String)
    ensures
        r@ == file_name@ + ".txt"@,
{
    append(file_name, ".txt")
}

/// The name of the descriptor that belongs to a media file: the whole file
/// name, its own extension included, followed by `.json`.
pub fn json_sidecar_name(file_name: &str) -> (r: String)
    ensures
        r@ == file_name@ + ".json"@,
{
    append(file_name, ".json")
}

/// The files to remove once a media file is uploaded, in this order: the
/// file itself, its descriptor, its tag list.
pub fn files_to_remove(file_name: &str) -> (r: Vec<String>)
    ensures
        texts(r@) == seq![file_name@, file_name@ + ".json"@, file_name@ + ".txt"@],
{
    let mut r: Vec<String> = Vec::new();
    r.push(owned(file_name));
    r.push(json_sidecar_name(file_name));
    r.push(txt_sidecar_name(file_name));
    assert(texts(r@) =~= seq![file_name@, file_name@ + ".json"@, file_name@ + ".txt"@]);
    r
}

/// Why a descriptor could not be used.
#[derive(Clone, Copy, Debug, PartialEq, Eq, Structural)]
pub enum SidecarError {
    /// The text is not a JSON document.
    Parse,
    /// The document names no site under `category`.
    MissingCategory,
}

/// How a site writes the tags of a post in its descriptor.
#[derive(Clone, Copy, Debug, PartialEq, Eq, Structural)]
pub enum TagFormat {
    /// An array of strings.
    JsonArray,
    /// One string, the tags separated by white space.
    SpaceDelimited,
    /// One string, the tags separated by commas. This is the form taken
    /// for every site that is not known.
    CommaDelimited,
}

/// The form in which a site writes its tags.
pub open spec fn tag_format_of(category: Seq<char>) -> TagFormat {
    if category == "art.mobius.social"@ || category == "sankaku"@ || category == "danbooru"@ {
        TagFormat::JsonArray
    } else if category == "rule34"@ || category == "safebooru"@ {
        TagFormat::SpaceDelimited
    } else {
        TagFormat::CommaDelimited
    }
}

/// The form in which a site writes its tags.
pub fn tag_format(category: &str) -> (r: TagFormat)
    ensures
        r == tag_format_of(category@),
{
    if equal(category, "art.mobius.social") || equal(category, "sankaku") || equal(
        category,
        "danbooru",
    ) {
        TagFormat::JsonArray
    } else if equal(category, "rule34") || equal(category, "safebooru") {
        TagFormat::SpaceDelimited
    } else {
        TagFormat::CommaDelimited
    }
}

/// The rating that a word in lower case stands for.
pub open spec fn safety_of(word: Seq<char>) -> Option<Safety> {
    if word == "safe"@ || word == "s"@ {
        Some(Safety::Safe)
    } else if word == "sketchy"@ || word == "questionable"@ || word == "q"@ {
        Some(Safety::Sketchy)
    } else if word == "unsafe"@ || word == "explicit"@ || word == "e"@ {
        Some(Safety::Unsafe)
    } else {
        None
    }
}

/// The rating that a word already in lower case stands for; none for a
/// word that is not known.
pub fn parse_safety(word: &str) -> (r: Option<Safety>)
    ensures
        r == safety_of(word@),
{
    if equal(word, "safe") || equal(word, "s") {
        Some(Safety::Safe)
    } else if equal(word, "sketchy") || equal(word, "questionable") || equal(word, "q") {
        Some(Safety::Sketchy)
    } else if equal(word, "unsafe") || equal(word, "explicit") || equal(word, "e") {
        Some(Safety::Unsafe)
    } else {
        None
    }
}

/// The rating that a word stands for, whatever its case.
pub fn safety_from_text(word: &str) -> (r: Option<Safety>)
    ensures
        r == safety_of(lowercase(word@)),
{
    let lowered = to_lowercase(word);
    parse_safety(lowered.as_str())
}

/// A tag as a line of a tag list gives it: without the white space around
/// it, and with an underscore for each space inside it.
pub open spec fn line_tag(line: Seq<char>) -> Seq<char> {
    replace(trim(line), ' ', '_')
}

/// The tags of a tag list: one for each line of the trimmed text, each
/// once.
pub open spec fn txt_tags(content: Seq<char>) -> Seq<Seq<char>> {
    dedup(split(trim(content), Separator::Char('\n')).map_values(|l: Seq<char>| line_tag(l)))
}

/// The tags of a tag list. None of them occurs twice or holds a space.
pub fn tags_from_txt(content: &str) -> (r: Vec<String>)
    ensures
        texts(r@) == txt_tags(content@),
        texts(r@).no_duplicates(),
        forall|i: int, k: int|
            0 <= i < r.len() && 0 <= k < texts(r@)[i].len() ==> texts(r@)[i][k] != ' ',
{
    let chars = to_chars(content);
    let trimmed = trim_chars(&chars);
    let parts = split_chars(&trimmed, Separator::Char('\n'));
    let ghost spec_parts = split(trim(content@), Separator::Char('\n'));
    let ghost wanted = spec_parts.map_values(|l: Seq<char>| line_tag(l));
    let mut tags: Vec<String> = Vec::new();
    let mut i: usize = 0;
    while i < parts.len()
        invariant
            i <= parts.len(),
            pieces(parts@) == spec_parts,
            wanted == spec_parts.map_values(|l: Seq<char>| line_tag(l)),
            tags.len() == i,
            forall|j: int| 0 <= j < i ==> (#[trigger] tags@[j])@ == wanted[j],
        decreases parts.len() - i,
    {
        let line = trim_chars(&parts[i]);
        let tag = replace_char(&line, ' ', '_');
        assert(pieces(parts@)[i as int] == parts@[i as int]@);
        assert(tag@ == wanted[i as int]);
        tags.push(to_text(&tag));
        i += 1;
    }
    assert(pieces(parts@).len() == parts.len());
    assert(texts(tags@) =~= wanted);
    let r = dedup_texts(tags);
    proof {
        lemma_dedup_no_duplicates(wanted);
        assert forall|i: int, k: int|
            0 <= i < r.len() && 0 <= k < texts(r@)[i].len() implies texts(r@)[i][k] != ' ' by {
            let t = texts(r@)[i];
            assert(dedup(wanted).contains(t));
            lemma_dedup_contains(wanted, t);
            let j = choose|j: int| 0 <= j < wanted.len() && wanted[j] == t;
            assert(wanted[j] == line_tag(spec_parts[j]));
        }
    }
    r
}

/// The `tags` member of a descriptor.
#[derive(Clone, Debug)]
pub enum TagsField {
    /// There is no such member, or it is neither a string nor an array.
    Missing,
    /// One string.
    Text(String),
    /// An array; these are its items that are strings, in order.
    List(Vec<String>),
}

/// What the reader takes from a descriptor.
#[derive(Clone, Debug)]
pub struct SidecarRecord {
    /// The member `source`, where it is a string.
    pub source: Option<String>,
    /// The member `url`, where it is a string.
    pub url: Option<String>,
    /// The member `category`: absent where the document has none; the
    /// empty text where it has one that is no string.
    pub category: Option<String>,
    pub tags: TagsField,
    /// The member `username`, where it is a string.
    pub username: Option<String>,
    /// The member `safety`, where it is a string.
    pub safety: Option<String>,
    /// The member `rating`, where it is a string.
    pub rating: Option<String>,
}

/// The `tags` member as plain mathematical values.
pub ghost enum TagsView {
    Missing,
    Text(Seq<char>),
    List(Seq<Seq<char>>),
}

/// A descriptor as plain mathematical values.
pub ghost struct RecordView {
    pub source: Option<Seq<char>>,
    pub url: Option<Seq<char>>,
    pub category: Option<Seq<char>>,
    pub tags: TagsView,
    pub username: Option<Seq<char>>,
    pub safety: Option<Seq<char>>,
    pub rating: Option<Seq<char>>,
}

impl View for TagsField {
    type V = TagsView;

    open spec fn view(&self) -> TagsView {
        match self {
            TagsField::Missing => TagsView::Missing,
            TagsField::Text(t) => TagsView::Text(t@),
            TagsField::List(l) => TagsView::List(texts(l@)),
        }
    }
}

impl View for SidecarRecord {
    type V = RecordView;

    open spec fn view(&self) -> RecordView {
        RecordView {
            source: optional_text(self.source),
            url: optional_text(self.url),
            category: optional_text(self.category),
            tags: self.tags@,
            username: optional_text(self.username),
            safety: optional_text(self.safety),
            rating: optional_text(self.rating),
        }
    }
}

/// The member of an object under a key.
pub open spec fn member(doc: JsonData, key: Seq<char>) -> Option<JsonData> {
    match doc {
        JsonData::Object(m) => if m.dom().contains(key) {
            Some(m[key])
        } else {
            None
        },
        _ => None,
    }
}

/// The text of a member that is a string.
pub open spec fn member_text(doc: JsonData, key: Seq<char>) -> Option<Seq<char>> {
    match member(doc, key) {
        Some(JsonData::Text(t)) => Some(t),
        _ => None,
    }
}

/// The items of an array that are strings, in order.
pub open spec fn string_items(items: Seq<JsonData>) -> Seq<Seq<char>>
    decreases items.len(),
{
    if items.len() == 0 {
        Seq::empty()
    } else {
        let init = string_items(items.drop_last());
        match items.last() {
            JsonData::Text(t) => init.push(t),
            _ => init,
        }
    }
}

/// What the reader takes from a document.
pub open spec fn record_of(doc: JsonData) -> RecordView {
    RecordView {
        source: member_text(doc, "source"@),
        url: member_text(doc, "url"@),
        category: match member(doc, "category"@) {
            Some(JsonData::Text(t)) => Some(t),
            Some(_) => Some(Seq::empty()),
            None => None,
        },
        tags: match member(doc, "tags"@) {
            Some(JsonData::Text(t)) => TagsView::Text(t),
            Some(JsonData::Array(items)) => TagsView::List(string_items(items)),
            _ => TagsView::Missing,
        },
        username: member_text(doc, "username"@),
        safety: member_text(doc, "safety"@),
        rating: member_text(doc, "rating"@),
    }
}

/// The member under `key`, where it is a string.
fn text_member(v: &serde_json::Value, key: &str) -> (r: Option<String>)
    ensures
        optional_text(r) == member_text(json_content(*v), key@),
{
    match value_get(v, key) {
        Some(x) => match value_as_str(x) {
            Some(s) => Some(owned(s)),
            None => None,
        },
        None => None,
    }
}

/// The items of `values` that are strings, in order.
fn string_members(values: &Vec<serde_json::Value>) -> (r: Vec<String>)
    ensures
        texts(r@) == string_items(Seq::new(values@.len(), |i: int| json_content(values@[i]))),
{
    let ghost all = Seq::new(values@.len(), |i: int| json_content(values@[i]));
    let mut r: Vec<String> = Vec::new();
    let mut i: usize = 0;
    assert(all.take(0) =~= Seq::<JsonData>::empty());
    while i < values.len()
        invariant
            i <= values.len(),
            all == Seq::new(values@.len(), |i: int| json_content(values@[i])),
            texts(r@) == string_items(all.take(i as int)),
        decreases values.len() - i,
    {
        let ghost before = texts(r@);
        assert(all.take(i + 1).drop_last() == all.take(i as int));
        assert(all.take(i + 1).last() == json_content(values@[i as int]));
        if let Some(s) = value_as_str(&values[i]) {
            r.push(owned(s));
            assert(texts(r@) =~= before.push(s@));
        }
        i += 1;
    }
    assert(all.take(values.len() as int) == all);
    r
}

/// What the reader takes from a parsed descriptor.
pub fn decode_record(v: &serde_json::Value) -> (r: SidecarRecord)
    ensures
        r@ == record_of(json_content(*v)),
{
    let category = match value_get(v, "category") {
        Some(x) => match value_as_str(x) {
            Some(s) => Some(owned(s)),
            None => Some(String::new()),
        },
        None => None,
    };
    let tags = match value_get(v, "tags") {
        Some(x) => match value_as_str(x) {
            Some(s) => TagsField::Text(owned(s)),
            None => match value_as_array(x) {
                Some(a) => {
                    let list = string_members(a);
                    proof {
                        let held = json_content(*x)->Array_0;
                        assert(Seq::new(a@.len(), |i: int| json_content(a@[i])) =~= held);
                    }
                    TagsField::List(list)
                },
                None => TagsField::Missing,
            },
        },
        None => TagsField::Missing,
    };
    SidecarRecord {
        source: text_member(v, "source"),
        url: text_member(v, "url"),
        category,
        tags,
        username: text_member(v, "username"),
        safety: text_member(v, "safety"),
        rating: text_member(v, "rating"),
    }
}

/// What the reader takes from the text of a descriptor.
pub open spec fn record_of_text(text: Seq<char>) -> Result<RecordView, SidecarError> {
    match json_document(text) {
        Some(doc) => Ok(record_of(doc)),
        None => Err(SidecarError::Parse),
    }
}

/// Reads a descriptor. It fails on a text that is no JSON document, and on
/// no other.
pub fn read_record(text: &str) -> (r: Result<SidecarRecord, SidecarError>)
    ensures
        match r {
            Ok(record) => record_of_text(text@) == Ok::<RecordView, SidecarError>(record@),
            Err(e) => record_of_text(text@) == Err::<RecordView, SidecarError>(e),
        },
{
    match parse_json(text) {
        Ok(v) => Ok(decode_record(&v)),
        Err(_) => Err(SidecarError::Parse),
    }
}

/// A tag as an array item gives it: in lower case, with an underscore
/// for each space.
pub open spec fn array_tag(item: Seq<char>) -> Seq<char> {
    replace(lowercase(item), ' ', '_')
}

/// The tags that the `tags` member lists, read in the given form; none
/// where the member does not have that form.
pub open spec fn listed_tags(format: TagFormat, tags: TagsView) -> Option<Seq<Seq<char>>> {
    match (format, tags) {
        (TagFormat::JsonArray, TagsView::List(l)) => Some(
            l.map_values(|t: Seq<char>| array_tag(t)),
        ),
        (TagFormat::SpaceDelimited, TagsView::Text(t)) => Some(words(t)),
        (TagFormat::CommaDelimited, TagsView::Text(t)) => Some(
            split(t, Separator::Char(',')).map_values(|p: Seq<char>| trim(p)),
        ),
        _ => None,
    }
}

/// The form in which the site of a descriptor writes its tags.
pub open spec fn record_format(r: RecordView) -> TagFormat {
    match r.category {
        Some(c) => tag_format_of(c),
        None => TagFormat::CommaDelimited,
    }
}

/// The tag that names the creator of a post.
pub open spec fn creator_tag(username: Seq<char>) -> Seq<char> {
    "creator:"@ + username
}

/// The tags of a descriptor: those that it lists, then the creator's where
/// it names one, each once.
pub open spec fn record_tags(r: RecordView) -> Option<Seq<Seq<char>>> {
    let listed = listed_tags(record_format(r), r.tags);
    match r.username {
        Some(u) => Some(dedup(items(listed).push(creator_tag(u)))),
        None => match listed {
            Some(l) => Some(dedup(l)),
            None => None,
        },
    }
}

/// The rating of a descriptor: what `safety` says where it is there, else
/// what `rating` says.
pub open spec fn record_safety(r: RecordView) -> Option<Safety> {
    match r.safety {
        Some(s) => safety_of(lowercase(s)),
        None => match r.rating {
            Some(s) => safety_of(lowercase(s)),
            None => None,
        },
    }
}

/// The tags of an array, each as `array_tag` gives it.
fn tags_of_array(list: &Vec<String>) -> (r: Vec<String>)
    ensures
        texts(r@) == texts(list@).map_values(|t: Seq<char>| array_tag(t)),
{
    let ghost wanted = texts(list@).map_values(|t: Seq<char>| array_tag(t));
    let mut r: Vec<String> = Vec::new();
    let mut i: usize = 0;
    while i < list.len()
        invariant
            i <= list.len(),
            r.len() == i,
            wanted == texts(list@).map_values(|t: Seq<char>| array_tag(t)),
            forall|j: int| 0 <= j < i ==> (#[trigger] r@[j])@ == wanted[j],
        decreases list.len() - i,
    {
        let lowered = to_lowercase(list[i].as_str());
        let tag = replace_char(&to_chars(lowered.as_str()), ' ', '_');
        assert(texts(list@)[i as int] == list@[i as int]@);
        r.push(to_text(&tag));
        i += 1;
    }
    assert(texts(r@) =~= wanted);
    r
}

/// The tags of a text in which commas separate them.
fn tags_of_commas(text: &str) -> (r: Vec<String>)
    ensures
        texts(r@) == split(text@, Separator::Char(',')).map_values(|p: Seq<char>| trim(p)),
{
    let parts = split_chars(&to_chars(text), Separator::Char(','));
    let ghost spec_parts = split(text@, Separator::Char(','));
    let ghost wanted = spec_parts.map_values(|p: Seq<char>| trim(p));
    let mut r: Vec<String> = Vec::new();
    let mut i: usize = 0;
    while i < parts.len()
        invariant
            i <= parts.len(),
            r.len() == i,
            pieces(parts@) == spec_parts,
            wanted == spec_parts.map_values(|p: Seq<char>| trim(p)),
            forall|j: int| 0 <= j < i ==> (#[trigger] r@[j])@ == wanted[j],
        decreases parts.len() - i,
    {
        let tag = trim_chars(&parts[i]);
        assert(pieces(parts@)[i as int] == parts@[i as int]@);
        r.push(to_text(&tag));
        i += 1;
    }
    assert(pieces(parts@).len() == parts.len());
    assert(texts(r@) =~= wanted);
    r
}

/// The tags that the `tags` member lists, read in the given form.
pub fn tags_in_format(format: TagFormat, tags: &TagsField) -> (r: Option<Vec<String>>)
    ensures
        optional_texts(r) == listed_tags(format, tags@),
{
    match (format, tags) {
        (TagFormat::JsonArray, TagsField::List(l)) => Some(tags_of_array(l)),
        (TagFormat::SpaceDelimited, TagsField::Text(t)) => {
            let found = split_words(&to_chars(t.as_str()));
            Some(to_texts(&found))
        },
        (TagFormat::CommaDelimited, TagsField::Text(t)) => Some(tags_of_commas(t.as_str())),
        _ => None,
    }
}

/// The tags of a descriptor.
pub fn tags_from_record(record: &SidecarRecord) -> (r: Option<Vec<String>>)
    ensures
        optional_texts(r) == record_tags(record@),
        optional_texts(r) matches Some(t) ==> t.no_duplicates(),
{
    let format = match &record.category {
        Some(c) => tag_format(c.as_str()),
        None => TagFormat::CommaDelimited,
    };
    let listed = tags_in_format(format, &record.tags);
    match &record.username {
        Some(u) => {
            let mut all = match listed {
                Some(l) => l,
                None => Vec::new(),
            };
            let ghost before = texts(all@);
            assert(before =~= items(listed_tags(format, record.tags@)));
            all.push(append("creator:", u.as_str()));
            assert(texts(all@) =~= before.push(creator_tag(u@)));
            proof {
                lemma_dedup_no_duplicates(texts(all@));
            }
            Some(dedup_texts(all))
        },
        None => match listed {
            Some(l) => {
                proof {
                    lemma_dedup_no_duplicates(texts(l@));
                }
                Some(dedup_texts(l))
            },
            None => None,
        },
    }
}

/// The rating of a descriptor.
pub fn safety_from_record(record: &SidecarRecord) -> (r: Option<Safety>)
    ensures
        r == record_safety(record@),
{
    match &record.safety {
        Some(s) => safety_from_text(s.as_str()),
        None => match &record.rating {
            Some(s) => safety_from_text(s.as_str()),
            None => None,
        },
    }
}

/// The view of an optional text.
pub open spec fn optional_str(a: Option<&str>) -> Option<Seq<char>> {
    match a {
        Some(s) => Some(s@),
        None => None,
    }
}

/// The rating of a draft: the one found, else `Unsafe`.
pub open spec fn rating_or_default(found: Option<Safety>) -> Safety {
    match found {
        Some(s) => s,
        None => Safety::Unsafe,
    }
}

/// The draft that the companions of a media file give, with the creator
/// that the descriptor names. The handle of the uploaded file is not part
/// of it yet. Where there is a descriptor, the tags are its own and the
/// tag list counts for nothing.
pub open spec fn sidecar_draft(txt: Option<Seq<char>>, record: Option<RecordView>) -> Result<
    (DraftView, Option<Seq<char>>),
    SidecarError,
> {
    let bare = DraftView { safety: Some(Safety::Unsafe), ..DraftView::empty() };
    match record {
        None => Ok(
            (
                DraftView {
                    tags: match txt {
                        Some(t) => Some(txt_tags(t)),
                        None => None,
                    },
                    ..bare
                },
                None,
            ),
        ),
        Some(r) => if r.category is None {
            Err(SidecarError::MissingCategory)
        } else {
            Ok(
                (
                    DraftView {
                        tags: record_tags(r),
                        safety: Some(rating_or_default(record_safety(r))),
                        source: merged_source(r.source, r.url),
                        ..bare
                    },
                    r.username,
                ),
            )
        },
    }
}

/// The view of an optional descriptor.
pub open spec fn optional_record(record: Option<&SidecarRecord>) -> Option<RecordView> {
    match record {
        Some(r) => Some(r@),
        None => None,
    }
}

/// Builds the draft of a media file from its tag list and its decoded
/// descriptor. It fails exactly where there is a descriptor without a
/// `category`. Where nothing gives a rating, the rating is `Unsafe`.
pub fn draft_from_sidecars(txt: Option<&str>, record: Option<&SidecarRecord>) -> (r: Result<
    (MetadataDraft, Option<String>),
    SidecarError,
>)
    ensures
        match r {
            Ok((draft, artist)) => {
                &&& sidecar_draft(optional_str(txt), optional_record(record)) == Ok::<
                    (DraftView, Option<Seq<char>>),
                    SidecarError,
                >((draft@, optional_text(artist)))
                &&& draft@.well_formed()
                &&& draft@.safety is Some
                &&& (record matches Some(rec) ==> record_safety(rec@) is None) ==> draft@.safety
                    == Some(Safety::Unsafe)
            },
            Err(e) => sidecar_draft(optional_str(txt), optional_record(record)) == Err::<
                (DraftView, Option<Seq<char>>),
                SidecarError,
            >(e),
        },
{
    let mut draft = MetadataDraft::empty();
    match record {
        None => {
            draft.tags = match txt {
                Some(t) => Some(tags_from_txt(t)),
                None => None,
            };
            draft.safety = Some(Safety::Unsafe);
            Ok((draft, None))
        },
        Some(rec) => {
            if rec.category.is_none() {
                return Err(SidecarError::MissingCategory);
            }
            draft.tags = tags_from_record(rec);
            draft.safety = Some(
                match safety_from_record(rec) {
                    Some(s) => s,
                    None => Safety::Unsafe,
                },
            );
            draft.source = merge_source(&rec.source, &rec.url);
            proof {
                lemma_merged_source_lines(optional_text(rec.source), optional_text(rec.url));
            }
            let artist = match &rec.username {
                Some(u) => Some(u.clone()),
                None => None,
            };
            Ok((draft, artist))
        },
    }
}

/// The draft that the texts of the two companions give, with the handle
/// of the uploaded file.
pub open spec fn sidecar_post(token: Seq<char>, txt: Option<Seq<char>>, json: Option<Seq<char>>)
    -> Result<(DraftView, Option<Seq<char>>), SidecarError> {
    let record = match json {
        None => Ok(None),
        Some(j) => match record_of_text(j) {
            Ok(r) => Ok(Some(r)),
            Err(e) => Err(e),
        },
    };
    match record {
        Err(e) => Err(e),
        Ok(r) => match sidecar_draft(txt, r) {
            Ok((draft, artist)) => Ok((DraftView { content_token: Some(token), ..draft }, artist)),
            Err(e) => Err(e),
        },
    }
}

/// Builds the draft of an uploaded media file from the texts of its
/// companions, each absent where the file has none. It fails where the
/// descriptor is no JSON document or names no `category`, and on nothing
/// else.
pub fn make_post_with_metadata(token: String, txt: Option<&str>, json: Option<&str>) -> (r: Result<
    (MetadataDraft, Option<String>),
    SidecarError,
>)
    ensures
        match r {
            Ok((draft, artist)) => {
                &&& sidecar_post(token@, optional_str(txt), optional_str(json)) == Ok::<
                    (DraftView, Option<Seq<char>>),
                    SidecarError,
                >((draft@, optional_text(artist)))
                &&& draft@.well_formed()
                &&& draft@.safety is Some
            },
            Err(e) => sidecar_post(token@, optional_str(txt), optional_str(json)) == Err::<
                (DraftView, Option<Seq<char>>),
                SidecarError,
            >(e),
        },
{
    let built = match json {
        None => draft_from_sidecars(txt, None),
        Some(j) => match read_record(j) {
            Ok(record) => draft_from_sidecars(txt, Some(&record)),
            Err(e) => Err(e),
        },
    };
    match built {
        Ok((draft, artist)) => Ok((draft.with_token(token), artist)),
        Err(e) => Err(e),
    }
}

} // verus!
