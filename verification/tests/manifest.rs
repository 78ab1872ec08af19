use mdbook_htmx::manifest::{Manifest, PageEntry};

fn entry(title: &str) -> PageEntry {
    PageEntry {
        title: title.to_string(),
        source: format!("{}.md", title),
        page_path: format!("pages/{}.html", title),
        fragment_path: format!("fragments/{}.html", title),
        scope: None,
        authn: None,
        authz: None,
        fallback: None,
        content_hash: "00000000".to_string(),
    }
}

#[test]
fn a_new_manifest_is_empty() {
    let manifest = Manifest::new("2024-01-02T03:04:05+00:00".to_string());
    assert_eq!(manifest.schema, "https://schemas.arusty.dev/mdbook-htmx/manifest.schema.json");
    assert_eq!(manifest.version, "1.0.0");
    assert_eq!(manifest.generated_at, "2024-01-02T03:04:05+00:00");
    assert_eq!(manifest.len(), 0);
    assert!(manifest.get("/").is_none());
}

#[test]
fn pages_are_kept_by_url() {
    let mut manifest = Manifest::new(String::new());
    manifest.add_page("/a".to_string(), entry("a"));
    manifest.add_page("/b".to_string(), entry("b"));
    assert_eq!(manifest.len(), 2);
    assert_eq!(manifest.get("/a").unwrap().title, "a");
    assert_eq!(manifest.get("/b").unwrap().source, "b.md");
    assert!(manifest.get("/c").is_none());
    assert!(manifest.get("/A").is_none());
    let (url, first) = manifest.entry(0);
    assert_eq!(url, "/a");
    assert_eq!(first.title, "a");
    let (url, second) = manifest.entry(1);
    assert_eq!(url, "/b");
    assert_eq!(second.title, "b");
}

#[test]
fn a_second_entry_for_a_url_replaces_the_first() {
    let mut manifest = Manifest::new(String::new());
    manifest.add_page("/a".to_string(), entry("first"));
    manifest.add_page("/b".to_string(), entry("b"));
    manifest.add_page("/a".to_string(), entry("second"));
    assert_eq!(manifest.len(), 2);
    assert_eq!(manifest.get("/a").unwrap().title, "second");
    assert_eq!(manifest.get("/b").unwrap().title, "b");
    assert_eq!(manifest.entry(0).0, "/a");
    assert_eq!(manifest.entry(1).0, "/b");
}
