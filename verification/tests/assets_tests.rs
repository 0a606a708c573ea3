use slideshow::assets::{consolidate_assets, file_name, AssetCopy, UnnamedMedia};
use slideshow::slide::Slide;
use std::path::Path;

fn slide_with_media(media: Option<&str>) -> Slide {
    Slide {
        title: Some("t".to_string()),
        body: Some("b".to_string()),
        notes: Some("n".to_string()),
        media: media.map(|m| m.to_string()),
        layout: None,
    }
}

#[test]
fn file_name_is_the_last_component() {
    assert_eq!(file_name("/abs/path/to/pic.png"), Some("pic.png".to_string()));
    assert_eq!(file_name("pic.png"), Some("pic.png".to_string()));
    assert_eq!(file_name("rel/pic.png"), Some("pic.png".to_string()));
    assert_eq!(file_name("a/b.tar.gz"), Some("b.tar.gz".to_string()));
}

#[test]
fn file_name_skips_trailing_separators_and_dots() {
    assert_eq!(file_name("/usr/bin/"), Some("bin".to_string()));
    assert_eq!(file_name("foo.txt/."), Some("foo.txt".to_string()));
    assert_eq!(file_name("foo.txt/.//"), Some("foo.txt".to_string()));
    assert_eq!(file_name("./pic.png"), Some("pic.png".to_string()));
    assert_eq!(file_name("a//b"), Some("b".to_string()));
}

#[test]
fn file_name_is_missing_where_nothing_is_named() {
    assert_eq!(file_name(""), None);
    assert_eq!(file_name("/"), None);
    assert_eq!(file_name("//"), None);
    assert_eq!(file_name("."), None);
    assert_eq!(file_name("./"), None);
    assert_eq!(file_name(".."), None);
    assert_eq!(file_name("foo.txt/.."), None);
    assert_eq!(file_name("a/../"), None);
}

#[test]
fn file_name_keeps_names_that_only_look_like_dots() {
    assert_eq!(file_name("..."), Some("...".to_string()));
    assert_eq!(file_name("a/.hidden"), Some(".hidden".to_string()));
    assert_eq!(file_name("a/..b"), Some("..b".to_string()));
    assert_eq!(file_name("a/b."), Some("b.".to_string()));
}

#[test]
fn file_name_handles_text_beyond_ascii() {
    assert_eq!(file_name("/bilder/caf\u{e9}.png"), Some("caf\u{e9}.png".to_string()));
    assert_eq!(file_name("\u{65e5}\u{672c}/\u{8a9e}"), Some("\u{8a9e}".to_string()));
}

#[test]
fn file_name_agrees_with_the_standard_library() {
    let paths = [
        "", "/", "//", ".", "..", "./", "../", "a", "a/", "a//", "/a", "a/b", "a/b/", "a/./b",
        "a/b/.", "a/b/..", "a/..", "./a", "../a", ".a", "a.", "..a", "a..", "...", "/./", "/../",
        "a/.//./", "/abs/path/to/pic.png", "x/y/z.tar.gz", " ", "a b/c d", "a\\b",
    ];
    for path in paths {
        let expected = Path::new(path).file_name().map(|name| name.to_str().unwrap().to_string());
        assert_eq!(file_name(path), expected, "path {:?}", path);
    }
}

#[test]
fn media_path_is_rewritten_to_the_asset_link() {
    let mut deck = vec![slide_with_media(Some("/abs/path/to/pic.png"))];
    let copies = consolidate_assets(&mut deck, "slides/assets").unwrap();
    assert_eq!(deck[0].media, Some("assets/pic.png".to_string()));
    assert_eq!(
        copies,
        vec![AssetCopy {
            source: "/abs/path/to/pic.png".to_string(),
            target: "slides/assets/pic.png".to_string(),
        }]
    );
}

#[test]
fn consolidation_changes_nothing_but_the_media() {
    let mut deck = vec![slide_with_media(Some("x/y.gif")), slide_with_media(None)];
    let before = deck.clone();
    consolidate_assets(&mut deck, "out").unwrap();
    assert_eq!(deck.len(), 2);
    for (now, then) in deck.iter().zip(before.iter()) {
        assert_eq!(now.title, then.title);
        assert_eq!(now.body, then.body);
        assert_eq!(now.notes, then.notes);
        assert_eq!(now.layout, then.layout);
    }
    assert_eq!(deck[0].media, Some("assets/y.gif".to_string()));
    assert_eq!(deck[1].media, None);
}

#[test]
fn copies_come_in_deck_order() {
    let mut deck = vec![
        slide_with_media(Some("b/2.png")),
        slide_with_media(None),
        slide_with_media(Some("a/1.png")),
        slide_with_media(Some("c/3.png")),
    ];
    let copies = consolidate_assets(&mut deck, "d").unwrap();
    let sources: Vec<&str> = copies.iter().map(|copy| copy.source.as_str()).collect();
    let targets: Vec<&str> = copies.iter().map(|copy| copy.target.as_str()).collect();
    assert_eq!(sources, vec!["b/2.png", "a/1.png", "c/3.png"]);
    assert_eq!(targets, vec!["d/2.png", "d/1.png", "d/3.png"]);
}

#[test]
fn files_with_the_same_name_share_a_target() {
    let mut deck = vec![slide_with_media(Some("a/pic.png")), slide_with_media(Some("b/pic.png"))];
    let copies = consolidate_assets(&mut deck, "slides/assets").unwrap();
    assert_eq!(copies.len(), 2);
    assert_eq!(copies[0].target, "slides/assets/pic.png");
    assert_eq!(copies[1].target, "slides/assets/pic.png");
    assert_eq!(copies[0].source, "a/pic.png");
    assert_eq!(copies[1].source, "b/pic.png");
    assert_eq!(deck[0].media, deck[1].media);
}

#[test]
fn deck_without_media_needs_no_copies() {
    let mut deck = vec![slide_with_media(None), slide_with_media(None)];
    let before = deck.clone();
    assert_eq!(consolidate_assets(&mut deck, "slides/assets"), Ok(vec![]));
    assert_eq!(deck, before);
    let mut empty: Vec<Slide> = Vec::new();
    assert_eq!(consolidate_assets(&mut empty, "slides/assets"), Ok(vec![]));
}

#[test]
fn media_without_a_file_name_is_refused() {
    let mut deck = vec![
        slide_with_media(Some("ok/a.png")),
        slide_with_media(Some("dir/..")),
        slide_with_media(Some("/")),
    ];
    let before = deck.clone();
    assert_eq!(consolidate_assets(&mut deck, "slides/assets"), Err(UnnamedMedia { slide: 1 }));
    assert_eq!(deck, before);
}

#[test]
fn empty_media_path_is_refused() {
    let mut deck = vec![slide_with_media(Some(""))];
    assert_eq!(consolidate_assets(&mut deck, "slides/assets"), Err(UnnamedMedia { slide: 0 }));
}

#[test]
fn consolidating_twice_changes_nothing_more() {
    let mut deck = vec![slide_with_media(Some("/abs/path/to/pic.png")), slide_with_media(None)];
    consolidate_assets(&mut deck, "slides/assets").unwrap();
    let once = deck.clone();
    let copies = consolidate_assets(&mut deck, "slides/assets").unwrap();
    assert_eq!(deck, once);
    assert_eq!(copies[0].source, "assets/pic.png");
    assert_eq!(copies[0].target, "slides/assets/pic.png");
}
