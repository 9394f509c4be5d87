use booru_ingest::draft::{MetadataDraft, Safety};
use booru_ingest::resolve::{
    is_close_match, merge_with_existing, primary_tag_names, related_posts, resolve, PostSummary,
    RemoteTag, ReverseSearchResult, SimilarMatch, UploadAction,
};

fn strings(v: &[&str]) -> Vec<String> {
    v.iter().map(|s| s.to_string()).collect()
}

fn tag(names: &[&str]) -> RemoteTag {
    RemoteTag { names: strings(names) }
}

fn similar(post_id: u32, distance: f32) -> SimilarMatch {
    SimilarMatch { post_id, distance_bits: distance.to_bits() }
}

fn draft() -> MetadataDraft {
    let mut d = MetadataDraft::new("token".to_string());
    d.tags = Some(strings(&["b", "c"]));
    d.source = Some("http://new".to_string());
    d
}

fn existing() -> PostSummary {
    PostSummary {
        id: 42,
        version: Some(7),
        tags: Some(vec![tag(&["a", "alias_of_a"]), tag(&[]), tag(&["b"])]),
        source: Some("http://old\nhttp://new".to_string()),
        safety: Some(Safety::Sketchy),
        relations: Some(vec![5, 6]),
    }
}

#[test]
fn distance_threshold_boundary() {
    assert!(is_close_match((0.75f32).to_bits()));
    assert!(!is_close_match((0.7499f32).to_bits()));
    assert!(is_close_match((1.0f32).to_bits()));
    assert!(is_close_match((0.76f32).to_bits()));
    assert!(!is_close_match((0.0f32).to_bits()));
    assert!(!is_close_match((-1.0f32).to_bits()));
    assert!(!is_close_match(f32::NAN.to_bits()));
    assert!(is_close_match(f32::INFINITY.to_bits()));
}

#[test]
fn distance_threshold_agrees_with_the_comparison_of_numbers() {
    let mut bits: u32 = 0;
    loop {
        let d = f32::from_bits(bits);
        assert_eq!(is_close_match(bits), d >= 0.75, "{:#x}", bits);
        match bits.checked_add(65_521) {
            Some(next) => bits = next,
            None => break,
        }
    }
    for bits in [0x3F3F_FFFFu32, 0x3F40_0000, 0x3F40_0001, 0x7F7F_FFFF, 0x7F80_0000, 0x7F80_0001] {
        assert_eq!(is_close_match(bits), f32::from_bits(bits) >= 0.75, "{:#x}", bits);
    }
}

#[test]
fn related_posts_are_the_close_ones() {
    let found = vec![similar(1, 0.9), similar(2, 0.7499), similar(3, 0.75), similar(1, 0.8)];
    assert_eq!(related_posts(&found), vec![1, 3]);
    assert_eq!(related_posts(&vec![]), Vec::<u32>::new());
}

#[test]
fn primary_names_skip_tags_without_a_name() {
    let tags = vec![tag(&["a", "x"]), tag(&[]), tag(&["b"])];
    assert_eq!(primary_tag_names(&tags), strings(&["a", "b"]));
}

#[test]
fn exact_match_updates_and_never_creates() {
    let search = ReverseSearchResult {
        exact_match: Some(existing()),
        similar_matches: vec![similar(9, 0.8), similar(10, 0.1)],
    };
    match resolve(&search, draft()) {
        UploadAction::Update { post_id, request } => {
            assert_eq!(post_id, 42);
            assert_eq!(request.version, Some(7));
            assert_eq!(request.tags, Some(strings(&["a", "b", "c"])));
            assert_eq!(request.source.as_deref(), Some("http://old\nhttp://new"));
            assert_eq!(request.safety, Some(Safety::Sketchy));
            assert_eq!(request.relations, Some(vec![5, 6, 9]));
            assert!(request.notes.is_none());
            assert_eq!(request.flags, None);
            assert_eq!(request.content_url, None);
            assert_eq!(request.content_token, None);
            assert_eq!(request.anonymous, Some(false));
        },
        UploadAction::Create { .. } => panic!("a post with the same content must be updated"),
    }
}

#[test]
fn without_exact_match_the_draft_is_created() {
    let search = ReverseSearchResult {
        exact_match: None,
        similar_matches: vec![similar(9, 0.8), similar(10, 0.1)],
    };
    match resolve(&search, draft()) {
        UploadAction::Create { request } => {
            assert_eq!(request.tags, Some(strings(&["b", "c"])));
            assert_eq!(request.relations, Some(vec![9]));
            assert_eq!(request.content_token.as_deref(), Some("token"));
            assert_eq!(request.version, None);
        },
        UploadAction::Update { .. } => panic!("nothing to update"),
    }
    let none = ReverseSearchResult { exact_match: None, similar_matches: vec![] };
    assert!(matches!(resolve(&none, draft()), UploadAction::Create { request } if request.relations.is_none()));
    let far = ReverseSearchResult { exact_match: None, similar_matches: vec![similar(3, 0.2)] };
    assert!(matches!(resolve(&far, draft()), UploadAction::Create { request } if request.relations == Some(vec![])));
}

#[test]
fn merged_safety_prefers_the_draft() {
    let mut d = draft();
    d.safety = Some(Safety::Safe);
    assert_eq!(merge_with_existing(&existing(), &d).safety, Some(Safety::Safe));
    d.safety = None;
    assert_eq!(merge_with_existing(&existing(), &d).safety, Some(Safety::Sketchy));
    let mut e = existing();
    e.safety = None;
    assert_eq!(merge_with_existing(&e, &d).safety, Some(Safety::Unsafe));
}

#[test]
fn merge_of_nothing_leaves_fields_absent() {
    let e = PostSummary {
        id: 1,
        version: None,
        tags: Some(vec![]),
        source: None,
        safety: None,
        relations: None,
    };
    let d = MetadataDraft::new("t".to_string());
    let m = merge_with_existing(&e, &d);
    assert_eq!(m.tags, None);
    assert_eq!(m.source, None);
    assert_eq!(m.relations, None);
    assert_eq!(m.version, None);
}

#[test]
fn merging_the_same_draft_again_changes_nothing() {
    let once = merge_with_existing(&existing(), &draft());
    let again = PostSummary {
        id: 42,
        version: once.version,
        tags: once.tags.clone().map(|t| t.into_iter().map(|n| RemoteTag { names: vec![n] }).collect()),
        source: once.source.clone(),
        safety: once.safety,
        relations: once.relations.clone(),
    };
    let twice = merge_with_existing(&again, &draft());
    assert_eq!(twice.tags, once.tags);
    assert_eq!(twice.source, once.source);
    assert_eq!(twice.relations, once.relations);
}
