use mdbook_htmx::context::{
    default_build_dir, default_language, default_src, Book, BookConfig, BookItem, BookMetadata,
    BuildConfig, Chapter, ChapterIterator, RenderContext, VersionParts,
};

fn context(version: &str, sections: Vec<BookItem>) -> RenderContext {
    RenderContext {
        version: version.to_string(),
        root: String::new(),
        book: Book { sections },
        config: BookConfig {
            book: BookMetadata {
                title: None,
                authors: vec![],
                description: None,
                src: default_src(),
                language: default_language(),
            },
            build: BuildConfig::default(),
        },
        destination: String::new(),
    }
}

fn chapter(name: &str, sub_items: Vec<BookItem>) -> Chapter {
    Chapter {
        name: name.to_string(),
        content: String::new(),
        path: Some(format!("{}.md", name)),
        source_path: None,
        number: None,
        sub_items,
        parent_names: vec![],
    }
}

#[test]
fn test_version_check() {
    let ctx = context("0.4.40", vec![]);
    assert!(ctx.is_supported_version());
}

#[test]
fn test_old_version() {
    let ctx = context("0.4.0", vec![]);
    assert!(!ctx.is_supported_version());
}

#[test]
fn version_boundaries() {
    assert!(context("0.4.21", vec![]).is_supported_version());
    assert!(!context("0.4.20", vec![]).is_supported_version());
    assert!(context("0.5.0", vec![]).is_supported_version());
    assert!(context("1.0.0", vec![]).is_supported_version());
    assert!(!context("0.3.99", vec![]).is_supported_version());
    assert!(!context("0.4.21-alpha", vec![]).is_supported_version());
    assert!(context("0.4.22-alpha", vec![]).is_supported_version());
    assert!(context("0.4.21+build.5", vec![]).is_supported_version());
}

#[test]
fn unreadable_version_counts_as_supported() {
    assert!(context("not a version", vec![]).is_supported_version());
    assert!(context("", vec![]).is_supported_version());
    assert!(context("0.4", vec![]).is_supported_version());
}

#[test]
fn version_parts_compare_with_a_release() {
    let release = VersionParts { major: 1, minor: 2, patch: 3, pre: String::new() };
    assert!(release.is_at_least(1, 2, 3));
    assert!(release.is_at_least(1, 2, 2));
    assert!(release.is_at_least(0, 9, 9));
    assert!(!release.is_at_least(1, 2, 4));
    assert!(!release.is_at_least(1, 3, 0));
    assert!(!release.is_at_least(2, 0, 0));
    let pre = VersionParts { major: 1, minor: 2, patch: 3, pre: "rc.1".to_string() };
    assert!(!pre.is_at_least(1, 2, 3));
    assert!(pre.is_at_least(1, 2, 2));
}

#[test]
fn defaults_of_the_book() {
    assert_eq!(default_src(), "src");
    assert_eq!(default_language(), "en");
    assert_eq!(default_build_dir(), "book");
    let build = BuildConfig::default();
    assert_eq!(build.build_dir, "");
    assert!(!build.create_missing);
}

#[test]
fn chapters_come_in_document_order() {
    let sections = vec![
        BookItem::PartTitle("Part".to_string()),
        BookItem::Chapter(chapter(
            "a",
            vec![
                BookItem::Chapter(chapter("a1", vec![BookItem::Chapter(chapter("a1x", vec![]))])),
                BookItem::Separator,
                BookItem::Chapter(chapter("a2", vec![])),
            ],
        )),
        BookItem::Separator,
        BookItem::Chapter(chapter("b", vec![])),
    ];
    let ctx = context("0.4.40", sections);
    let names: Vec<&str> = ctx.iter_chapters().iter().map(|c| c.name.as_str()).collect();
    assert_eq!(names, vec!["a", "a1", "a1x", "a2", "b"]);
}

#[test]
fn an_empty_book_has_no_chapters() {
    assert!(context("0.4.40", vec![]).iter_chapters().is_empty());
    let only_marks = vec![BookItem::Separator, BookItem::PartTitle("P".to_string())];
    assert!(context("0.4.40", only_marks).iter_chapters().is_empty());
}

#[test]
fn the_walk_yields_one_chapter_at_a_time() {
    let sections = vec![
        BookItem::Chapter(chapter("a", vec![BookItem::Chapter(chapter("a1", vec![]))])),
        BookItem::Chapter(chapter("b", vec![])),
    ];
    let mut walk = ChapterIterator::new(&sections);
    assert_eq!(walk.next().map(|c| c.name.as_str()), Some("a"));
    assert_eq!(walk.next().map(|c| c.name.as_str()), Some("a1"));
    assert_eq!(walk.next().map(|c| c.name.as_str()), Some("b"));
    assert!(walk.next().is_none());
    assert!(walk.next().is_none());
    let mut again = ChapterIterator::new(&sections);
    assert_eq!(again.next().map(|c| c.name.as_str()), Some("a"));
}

#[test]
fn drafts_are_walked_too() {
    let mut draft = chapter("draft", vec![]);
    draft.path = None;
    let sections = vec![BookItem::Chapter(draft), BookItem::Chapter(chapter("b", vec![]))];
    let ctx = context("0.4.40", sections);
    let found = ctx.iter_chapters();
    assert_eq!(found.len(), 2);
    assert!(found[0].path.is_none());
}
