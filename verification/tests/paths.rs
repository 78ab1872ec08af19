use mdbook_htmx::paths::{
    extension_index, hashed_chars, joined, name_start, url_chars, with_extension,
    without_extension,
};
use mdbook_htmx::render::oob::path_to_url;
use std::path::Path;

fn chars(text: &str) -> Vec<char> {
    text.chars().collect()
}

fn text(chars: &[char]) -> String {
    chars.iter().collect()
}

#[test]
fn the_file_name_begins_after_the_last_separator() {
    assert_eq!(name_start(&chars("a/b/c.md")), 4);
    assert_eq!(name_start(&chars("c.md")), 0);
    assert_eq!(name_start(&chars("a/b/")), 4);
    assert_eq!(name_start(&chars("a\\b")), 2);
    assert_eq!(name_start(&chars("")), 0);
}

#[test]
fn the_extension_begins_at_the_last_dot_of_the_name() {
    assert_eq!(extension_index(&chars("a/b.tar.gz")), Some(7));
    assert_eq!(extension_index(&chars("a.d/b")), None);
    assert_eq!(extension_index(&chars(".hidden")), None);
    assert_eq!(extension_index(&chars("a/.hidden")), None);
    assert_eq!(extension_index(&chars(".hidden.md")), Some(7));
    assert_eq!(extension_index(&chars("..")), None);
    assert_eq!(extension_index(&chars("a/..")), None);
    assert_eq!(extension_index(&chars("...")), Some(2));
    assert_eq!(extension_index(&chars("name.")), Some(4));
    assert_eq!(extension_index(&chars("")), None);
}

#[test]
fn stripping_and_replacing_the_extension() {
    assert_eq!(text(&without_extension(&chars("guide/intro.md"))), "guide/intro");
    assert_eq!(text(&without_extension(&chars("guide/intro"))), "guide/intro");
    assert_eq!(text(&without_extension(&chars("a.b/c.d.e"))), "a.b/c.d");
    assert_eq!(text(&with_extension("guide/intro.md", "html")), "guide/intro.html");
    assert_eq!(text(&with_extension("README", "html")), "README.html");
    assert_eq!(text(&with_extension("a.tar.gz", "zip")), "a.tar.zip");
}

#[test]
fn joining_directory_and_file() {
    assert_eq!(text(&joined("pages", "guide/intro.html")), "pages/guide/intro.html");
    assert_eq!(text(&joined("out/", "pages")), "out/pages");
    assert_eq!(text(&joined("", "pages")), "pages");
    assert_eq!(text(&joined("out", "/abs/file")), "/abs/file");
    assert_eq!(text(&joined("out", "")), "out/");
}

#[test]
fn urls_of_stems() {
    assert_eq!(text(&url_chars(&chars("guide/intro.md"))), "/guide/intro");
    assert_eq!(text(&url_chars(&chars("README.md"))), "/");
    assert_eq!(text(&hashed_chars(&chars("a/b.css"), &chars("ff"))), "a/b.ff.css");
}

#[test]
fn distinct_chapters_have_distinct_urls() {
    let paths = [
        "README.md",
        "intro.md",
        "guide/README.md",
        "guide/intro.md",
        "guide/install.md",
        "guide/advanced/README.md",
        "guide/advanced/intro.md",
        "reference/README.md",
        "reference/api.v2.md",
        "reference/api.md",
        "READMEs.md",
        "guide.md",
        "guide/guide.md",
    ];
    let urls: Vec<String> = paths.iter().map(|p| path_to_url(p)).collect();
    for i in 0..urls.len() {
        for j in 0..urls.len() {
            assert_eq!(urls[i] == urls[j], i == j, "{} and {}", paths[i], paths[j]);
        }
    }
}

#[test]
fn paths_that_no_chapter_has_can_share_a_url() {
    assert_eq!(path_to_url("a\\b.md"), path_to_url("a/b.md"));
    assert_eq!(path_to_url(""), path_to_url("README.md"));
    assert_eq!(path_to_url("a.md"), path_to_url("a.txt"));
}

const CHAPTER_PATHS: [&str; 14] = [
    "README.md",
    "intro.md",
    "guide/README.md",
    "guide/intro.md",
    "guide/advanced/setup.v2.md",
    "reference/api.md",
    "notes",
    "dir.d/notes",
    ".hidden",
    "dir/.hidden.md",
    "archive.tar.gz",
    "name.",
    "a/b/c/d.markdown",
    "über/größe.md",
];

#[test]
fn extensions_agree_with_the_standard_library_on_chapter_paths() {
    for path in CHAPTER_PATHS {
        let std_stem = Path::new(path).with_extension("");
        assert_eq!(text(&without_extension(&chars(path))), std_stem.to_string_lossy(), "{}", path);
        let std_html = Path::new(path).with_extension("html");
        assert_eq!(text(&with_extension(path, "html")), std_html.to_string_lossy(), "{}", path);
        let dot = extension_index(&chars(path));
        let std_ext = Path::new(path).extension().map(|e| e.to_string_lossy().into_owned());
        let ext = dot.map(|d| path.chars().skip(d + 1).collect::<String>());
        assert_eq!(ext, std_ext, "{}", path);
    }
}

#[test]
fn joins_agree_with_the_standard_library() {
    for dir in ["pages", "book/htmx", "out/", ""] {
        for rel in ["guide/intro.html", "README.html", "/abs/file", "a"] {
            let std_joined = Path::new(dir).join(rel);
            assert_eq!(text(&joined(dir, rel)), std_joined.to_string_lossy(), "{} {}", dir, rel);
        }
    }
}

#[test]
fn hashed_names_agree_with_the_standard_library() {
    for path in ["assets/style.css", "app.min.js", "LICENSE", "a/b.c/d", "fonts/x.woff2"] {
        let p = Path::new(path);
        let stem = p.file_stem().unwrap().to_string_lossy();
        let name = match p.extension() {
            Some(ext) => format!("{}.{}.{}", stem, "abc12345", ext.to_string_lossy()),
            None => format!("{}.{}", stem, "abc12345"),
        };
        let expected = p.with_file_name(name);
        assert_eq!(
            text(&hashed_chars(&chars(path), &chars("abc12345"))),
            expected.to_string_lossy(),
            "{}",
            path
        );
    }
}

#[test]
fn where_paths_as_text_part_from_the_standard_library() {
    // A trailing separator: here the last component is empty and has no extension.
    assert_eq!(text(&without_extension(&chars("guide/intro.md/"))), "guide/intro.md/");
    // A backslash separates components on every platform.
    assert_eq!(text(&without_extension(&chars("dir.d\\notes"))), "dir.d\\notes");
    assert_eq!(text(&without_extension(&chars("dir\\notes.md"))), "dir\\notes");
}
