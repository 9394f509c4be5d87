use booru_ingest::draft::{MetadataDraft, Safety};
use booru_ingest::sidecar::{
    decode_record, draft_from_sidecars, files_to_remove, json_sidecar_name, make_post_with_metadata, parse_safety,
    read_record, safety_from_record, safety_from_text, tag_format, tags_from_record,
    tags_from_txt, tags_in_format, txt_sidecar_name, SidecarError, SidecarRecord, TagFormat,
    TagsField,
};

fn record() -> SidecarRecord {
    SidecarRecord {
        source: None,
        url: None,
        category: Some("other".to_string()),
        tags: TagsField::Missing,
        username: None,
        safety: None,
        rating: None,
    }
}

fn strings(v: &[&str]) -> Vec<String> {
    v.iter().map(|s| s.to_string()).collect()
}

fn draft_of(txt: Option<&str>, json: Option<&str>) -> (MetadataDraft, Option<String>) {
    make_post_with_metadata("tok".to_string(), txt, json).unwrap()
}

#[test]
fn sidecar_names_append_to_the_whole_file_name() {
    assert_eq!(txt_sidecar_name("img.png"), "img.png.txt");
    assert_eq!(json_sidecar_name("img.png"), "img.png.json");
    assert_ne!(txt_sidecar_name("img.png"), "img.txt");
    assert_ne!(json_sidecar_name("img.png"), "img.json");
    assert_eq!(txt_sidecar_name("noext"), "noext.txt");
}

#[test]
fn txt_tags_are_trimmed_and_underscored() {
    assert_eq!(tags_from_txt("  long hair \nblue eyes\n\n"), strings(&["long_hair", "blue_eyes"]));
    assert_eq!(tags_from_txt("a\r\nb c\r\n"), strings(&["a", "b_c"]));
    assert_eq!(tags_from_txt("a\n\nb"), strings(&["a", "", "b"]));
    assert_eq!(tags_from_txt("x\nx\ny"), strings(&["x", "y"]));
    assert_eq!(tags_from_txt(""), strings(&[""]));
}

#[test]
fn tag_format_by_site() {
    assert_eq!(tag_format("art.mobius.social"), TagFormat::JsonArray);
    assert_eq!(tag_format("sankaku"), TagFormat::JsonArray);
    assert_eq!(tag_format("danbooru"), TagFormat::JsonArray);
    assert_eq!(tag_format("rule34"), TagFormat::SpaceDelimited);
    assert_eq!(tag_format("safebooru"), TagFormat::SpaceDelimited);
    assert_eq!(tag_format("twitter"), TagFormat::CommaDelimited);
    assert_eq!(tag_format(""), TagFormat::CommaDelimited);
    assert_eq!(tag_format("Danbooru"), TagFormat::CommaDelimited);
}

#[test]
fn tags_in_each_format() {
    let list = TagsField::List(strings(&["Long Hair", "SOLO"]));
    let text = TagsField::Text(" a  b_c\td ".to_string());
    let commas = TagsField::Text("one, two words ,three,".to_string());
    assert_eq!(tags_in_format(TagFormat::JsonArray, &list), Some(strings(&["long_hair", "solo"])));
    assert_eq!(
        tags_in_format(TagFormat::SpaceDelimited, &text),
        Some(strings(&["a", "b_c", "d"]))
    );
    assert_eq!(
        tags_in_format(TagFormat::CommaDelimited, &commas),
        Some(strings(&["one", "two words", "three", ""]))
    );
    assert_eq!(tags_in_format(TagFormat::JsonArray, &text), None);
    assert_eq!(tags_in_format(TagFormat::SpaceDelimited, &list), None);
    assert_eq!(tags_in_format(TagFormat::CommaDelimited, &list), None);
    assert_eq!(tags_in_format(TagFormat::CommaDelimited, &TagsField::Missing), None);
}

#[test]
fn username_becomes_a_creator_tag() {
    let mut r = record();
    r.tags = TagsField::Text("a,b".to_string());
    r.username = Some("alice".to_string());
    assert_eq!(tags_from_record(&r), Some(strings(&["a", "b", "creator:alice"])));
    r.tags = TagsField::Missing;
    assert_eq!(tags_from_record(&r), Some(strings(&["creator:alice"])));
    r.username = None;
    assert_eq!(tags_from_record(&r), None);
}

#[test]
fn record_tags_hold_no_duplicates() {
    let mut r = record();
    r.category = Some("rule34".to_string());
    r.tags = TagsField::Text("a b a creator:bob".to_string());
    r.username = Some("bob".to_string());
    assert_eq!(tags_from_record(&r), Some(strings(&["a", "b", "creator:bob"])));
}

#[test]
fn safety_words_in_lower_case() {
    assert_eq!(parse_safety("safe"), Some(Safety::Safe));
    assert_eq!(parse_safety("s"), Some(Safety::Safe));
    assert_eq!(parse_safety("sketchy"), Some(Safety::Sketchy));
    assert_eq!(parse_safety("questionable"), Some(Safety::Sketchy));
    assert_eq!(parse_safety("q"), Some(Safety::Sketchy));
    assert_eq!(parse_safety("unsafe"), Some(Safety::Unsafe));
    assert_eq!(parse_safety("explicit"), Some(Safety::Unsafe));
    assert_eq!(parse_safety("e"), Some(Safety::Unsafe));
    assert_eq!(parse_safety("Safe"), None);
    assert_eq!(parse_safety("general"), None);
    assert_eq!(parse_safety(""), None);
}

#[test]
fn safety_words_in_any_case() {
    assert_eq!(safety_from_text("SAFE"), Some(Safety::Safe));
    assert_eq!(safety_from_text("Questionable"), Some(Safety::Sketchy));
    assert_eq!(safety_from_text("E"), Some(Safety::Unsafe));
    assert_eq!(safety_from_text("nsfw"), None);
}

#[test]
fn safety_comes_before_rating() {
    let mut r = record();
    r.rating = Some("s".to_string());
    assert_eq!(safety_from_record(&r), Some(Safety::Safe));
    r.safety = Some("explicit".to_string());
    assert_eq!(safety_from_record(&r), Some(Safety::Unsafe));
    r.safety = Some("unknown".to_string());
    assert_eq!(safety_from_record(&r), None);
}

#[test]
fn decode_record_reads_the_members() {
    let text = r#"{"source":"http://s","url":"http://u","category":"danbooru",
        "tags":["A B",1,"c"],"username":"bob","safety":"q","rating":7}"#;
    let value: serde_json::Value = serde_json::from_str(text).unwrap();
    let r = decode_record(&value);
    assert_eq!(r.source.as_deref(), Some("http://s"));
    assert_eq!(r.url.as_deref(), Some("http://u"));
    assert_eq!(r.category.as_deref(), Some("danbooru"));
    assert!(matches!(&r.tags, TagsField::List(l) if *l == strings(&["A B", "c"])));
    assert_eq!(r.username.as_deref(), Some("bob"));
    assert_eq!(r.safety.as_deref(), Some("q"));
    assert_eq!(r.rating, None);
}

#[test]
fn decode_record_of_odd_documents() {
    let r = read_record(r#"{"category":null,"tags":"a b","source":5}"#).unwrap();
    assert_eq!(r.category.as_deref(), Some(""));
    assert!(matches!(&r.tags, TagsField::Text(t) if t == "a b"));
    assert_eq!(r.source, None);
    let r = read_record(r#"{"tags":{"a":1}}"#).unwrap();
    assert_eq!(r.category, None);
    assert!(matches!(r.tags, TagsField::Missing));
    let r = read_record("[1,2]").unwrap();
    assert_eq!(r.category, None);
    assert!(matches!(r.tags, TagsField::Missing));
}

#[test]
fn read_record_refuses_what_is_no_json() {
    assert_eq!(read_record("{not json").err(), Some(SidecarError::Parse));
    assert_eq!(read_record("").err(), Some(SidecarError::Parse));
    assert_eq!(read_record("{} {}").err(), Some(SidecarError::Parse));
}

#[test]
fn safety_defaults_to_unsafe() {
    let (d, artist) = draft_of(None, None);
    assert_eq!(d.safety, Some(Safety::Unsafe));
    assert_eq!(d.tags, None);
    assert_eq!(d.source, None);
    assert_eq!(d.relations, None);
    assert_eq!(d.version, None);
    assert_eq!(d.content_token.as_deref(), Some("tok"));
    assert_eq!(d.anonymous, Some(false));
    assert_eq!(artist, None);
    let (d, _) = draft_of(Some("a"), Some(r#"{"category":"x","rating":"weird"}"#));
    assert_eq!(d.safety, Some(Safety::Unsafe));
    let (d, _) = draft_of(None, Some(r#"{"category":"x","rating":"S"}"#));
    assert_eq!(d.safety, Some(Safety::Safe));
}

#[test]
fn draft_from_a_tag_list_alone() {
    let (d, artist) = draft_of(Some("one tag\ntwo\n"), None);
    assert_eq!(d.tags, Some(strings(&["one_tag", "two"])));
    assert_eq!(d.safety, Some(Safety::Unsafe));
    assert_eq!(artist, None);
}

#[test]
fn descriptor_tags_replace_the_tag_list() {
    let json = r#"{"category":"rule34","tags":"x y","username":"ann","source":"http://a",
        "url":"http://b","safety":"sketchy"}"#;
    let (d, artist) = draft_of(Some("from txt"), Some(json));
    assert_eq!(d.tags, Some(strings(&["x", "y", "creator:ann"])));
    assert_eq!(d.source.as_deref(), Some("http://a\nhttp://b"));
    assert_eq!(d.safety, Some(Safety::Sketchy));
    assert_eq!(artist.as_deref(), Some("ann"));
    let (d, _) = draft_of(Some("from txt"), Some(r#"{"category":"rule34"}"#));
    assert_eq!(d.tags, None);
}

#[test]
fn source_and_url_give_unique_lines() {
    let (d, _) = draft_of(None, Some(r#"{"category":"x","source":"http://a","url":"http://a"}"#));
    assert_eq!(d.source.as_deref(), Some("http://a"));
    let (d, _) = draft_of(None, Some(r#"{"category":"x","url":"http://u"}"#));
    assert_eq!(d.source.as_deref(), Some("http://u"));
    let (d, _) = draft_of(None, Some(r#"{"category":"x"}"#));
    assert_eq!(d.source, None);
}

#[test]
fn descriptor_errors() {
    let r = make_post_with_metadata("t".to_string(), Some("a"), Some("nope"));
    assert_eq!(r.err(), Some(SidecarError::Parse));
    let r = make_post_with_metadata("t".to_string(), None, Some(r#"{"tags":"a"}"#));
    assert_eq!(r.err(), Some(SidecarError::MissingCategory));
    let mut rec = record();
    rec.category = None;
    let r = draft_from_sidecars(None, Some(&rec));
    assert_eq!(r.err(), Some(SidecarError::MissingCategory));
}

#[test]
fn the_reader_leaves_the_content_token_unset() {
    let (d, _) = draft_from_sidecars(Some("a"), None).unwrap();
    assert_eq!(d.content_token, None);
    assert_eq!(d.relations, None);
    assert_eq!(d.tags, Some(strings(&["a"])));
    let d = d.with_token("tok".to_string());
    assert_eq!(d.content_token.as_deref(), Some("tok"));
    assert_eq!(MetadataDraft::new("x".to_string()).content_token.as_deref(), Some("x"));
    assert_eq!(MetadataDraft::empty().anonymous, Some(false));
}

#[test]
fn the_file_goes_before_its_companions() {
    assert_eq!(files_to_remove("img.png"), strings(&["img.png", "img.png.json", "img.png.txt"]));
}
