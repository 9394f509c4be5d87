use booru_ingest::media::{file_extension, is_known_extension, is_media_file, media_files};
use booru_ingest::order::{is_text_le, sort_file_names, sort_texts};
use booru_ingest::tag::Tag;
use std::path::Path;

fn strings(v: &[&str]) -> Vec<String> {
    v.iter().map(|s| s.to_string()).collect()
}

fn chars(s: &str) -> Vec<char> {
    s.chars().collect()
}

#[test]
fn extension_agrees_with_std() {
    for name in [
        "img.png", "img", ".png", "a.b.c", "a.", "..", "...", ".a.b", "archive.tar.GZ", "", ".",
        "x.jp g",
    ] {
        let want = Path::new(name).extension().map(|e| e.to_string_lossy().into_owned());
        assert_eq!(file_extension(name), want, "{:?}", name);
    }
}

#[test]
fn media_extensions_in_any_case() {
    for ext in ["jpg", "jpeg", "png", "mp4", "webm", "gif", "swf", "webp"] {
        assert!(is_known_extension(ext));
        assert!(is_media_file(&format!("file.{}", ext)));
        assert!(is_media_file(&format!("file.{}", ext.to_uppercase())));
    }
    assert!(!is_known_extension("PNG"));
    assert!(!is_known_extension("txt"));
    assert!(is_media_file("img.PnG"));
    assert!(!is_media_file("img.png.txt"));
    assert!(!is_media_file("img.png.json"));
    assert!(!is_media_file("png"));
    assert!(!is_media_file(".png"));
    assert!(!is_media_file("img.bmp"));
}

#[test]
fn media_files_keep_their_order() {
    let names = strings(&["b.png", "a.txt", "c.JPG", "d", "e.webm"]);
    assert_eq!(media_files(&names), strings(&["b.png", "c.JPG", "e.webm"]));
}

#[test]
fn text_order_agrees_with_std() {
    let all = ["", "a", "ab", "b", "B", "a.png", "a-png", "\u{e9}", "z", "10", "9"];
    for a in all {
        for b in all {
            assert_eq!(is_text_le(&chars(a), &chars(b)), a <= b, "{:?} {:?}", a, b);
        }
    }
}

#[test]
fn sort_file_names_agrees_with_std() {
    let names = strings(&["b.png", "a.png", "B.png", "10.jpg", "9.jpg", "a.png", ""]);
    let mut want = names.clone();
    want.sort();
    assert_eq!(sort_file_names(&names), want);
    assert_eq!(sort_texts(vec![chars("b"), chars("a")]), vec![chars("a"), chars("b")]);
    assert_eq!(sort_file_names(&vec![]), Vec::<String>::new());
}

#[test]
fn tag_holds_its_fields() {
    let tag = Tag {
        name: "cat".to_string(),
        category: "animal".to_string(),
        aliases: strings(&["kitty"]),
        implications: strings(&["mammal"]),
        suggested: vec![],
    };
    let copy = tag.clone();
    assert_eq!(copy.name, "cat");
    assert_eq!(copy.category, "animal");
    assert_eq!(copy.aliases, strings(&["kitty"]));
    assert_eq!(copy.implications, strings(&["mammal"]));
    assert!(copy.suggested.is_empty());
}
