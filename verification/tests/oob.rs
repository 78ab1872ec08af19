use mdbook_htmx::context::Chapter;
use mdbook_htmx::render::oob::{
    build_breadcrumbs, build_nav_items, dotted_number, path_to_url, render_oob_updates,
    OobUpdates,
};
use mdbook_htmx::templates::TemplateContext;

fn chapter(name: &str, path: Option<&str>) -> Chapter {
    Chapter {
        name: name.to_string(),
        content: String::new(),
        path: path.map(|p| p.to_string()),
        source_path: None,
        number: None,
        sub_items: vec![],
        parent_names: vec![],
    }
}

#[test]
fn test_breadcrumb_home() {
    let chapter = Chapter {
        name: "Home".to_string(),
        content: String::new(),
        path: Some("README.md".to_string()),
        source_path: None,
        number: None,
        sub_items: vec![],
        parent_names: vec![],
    };

    let crumbs = build_breadcrumbs(&chapter, "/");
    assert_eq!(crumbs.len(), 1);
    assert!(crumbs[0].is_current);
}

#[test]
fn test_breadcrumb_nested() {
    let chapter = Chapter {
        name: "Installation".to_string(),
        content: String::new(),
        path: Some("guide/installation.md".to_string()),
        source_path: None,
        number: Some(vec![1, 2]),
        sub_items: vec![],
        parent_names: vec!["Guide".to_string()],
    };

    let crumbs = build_breadcrumbs(&chapter, "/guide/installation");
    assert_eq!(crumbs.len(), 3); // Home > Guide > Installation
    assert!(!crumbs[0].is_current); // Home
    assert!(!crumbs[1].is_current); // Guide
    assert!(crumbs[2].is_current); // Installation
}

#[test]
fn test_nav_items() {
    let ch1 = Chapter {
        name: "Introduction".to_string(),
        content: String::new(),
        path: Some("intro.md".to_string()),
        source_path: None,
        number: Some(vec![1]),
        sub_items: vec![],
        parent_names: vec![],
    };

    let ch2 = Chapter {
        name: "Guide".to_string(),
        content: String::new(),
        path: Some("guide.md".to_string()),
        source_path: None,
        number: Some(vec![2]),
        sub_items: vec![],
        parent_names: vec![],
    };

    let chapters: Vec<&Chapter> = vec![&ch1, &ch2];
    let items = build_nav_items(&chapters, "/intro");

    assert_eq!(items.len(), 2);
    assert!(items[0].is_active);
    assert!(!items[1].is_active);
    assert_eq!(items[0].number, Some("1".to_string()));
}

#[test]
fn test_oob_updates_to_html() {
    let updates = OobUpdates {
        sidebar: Some("<ul>sidebar</ul>".to_string()),
        breadcrumb: Some("<ol>crumbs</ol>".to_string()),
    };

    let html = updates.to_html();
    assert!(html.contains("sidebar"));
    assert!(html.contains("crumbs"));
}

#[test]
fn test_oob_updates_empty() {
    let updates = OobUpdates::default();
    assert!(updates.is_empty());
    assert!(updates.to_html().is_empty());
}

#[test]
fn urls_of_plain_paths() {
    assert_eq!(path_to_url("chapter1.md"), "/chapter1");
    assert_eq!(path_to_url("README.md"), "/");
    assert_eq!(path_to_url("guide/intro.md"), "/guide/intro");
}

#[test]
fn index_documents_stand_for_their_directory() {
    assert_eq!(path_to_url("guide/README.md"), "/guide/");
    assert_eq!(path_to_url("a/b/README.md"), "/a/b/");
    assert_eq!(path_to_url("README"), "/");
    assert_eq!(path_to_url("a/README/README.md"), "/a/README/");
    assert_eq!(path_to_url("guide/READMEs.md"), "/guide/READMEs");
    assert_eq!(path_to_url("xREADME.md"), "/xREADME");
}

#[test]
fn separators_of_other_platforms_become_slashes() {
    assert_eq!(path_to_url("guide\\intro.md"), "/guide/intro");
    assert_eq!(path_to_url("a\\b\\c.md"), "/a/b/c");
}

#[test]
fn only_the_extension_of_the_file_name_goes() {
    assert_eq!(path_to_url("v1.2/notes.final.md"), "/v1.2/notes.final");
    assert_eq!(path_to_url("v1.2/notes"), "/v1.2/notes");
    assert_eq!(path_to_url(".hidden"), "/.hidden");
    assert_eq!(path_to_url("dir/.hidden.md"), "/dir/.hidden");
    assert_eq!(path_to_url(""), "/");
}

#[test]
fn exactly_the_shown_chapter_is_active() {
    let a = chapter("A", Some("a.md"));
    let b = chapter("B", Some("b.md"));
    let c = chapter("C", Some("c.md"));
    let chapters: Vec<&Chapter> = vec![&a, &b, &c];
    let items = build_nav_items(&chapters, &path_to_url("b.md"));
    let active: Vec<bool> = items.iter().map(|i| i.is_active).collect();
    assert_eq!(active, vec![false, true, false]);
    let titles: Vec<&str> = items.iter().map(|i| i.title.as_str()).collect();
    assert_eq!(titles, vec!["A", "B", "C"]);
    let paths: Vec<&str> = items.iter().map(|i| i.path.as_str()).collect();
    assert_eq!(paths, vec!["/a", "/b", "/c"]);
}

#[test]
fn drafts_are_not_in_the_sidebar() {
    let a = chapter("A", Some("a.md"));
    let draft = chapter("Draft", None);
    let c = chapter("C", Some("c.md"));
    let chapters: Vec<&Chapter> = vec![&a, &draft, &c];
    let items = build_nav_items(&chapters, "/c");
    assert_eq!(items.len(), 2);
    assert_eq!(items[0].title, "A");
    assert_eq!(items[1].title, "C");
    assert!(items[1].is_active);
    assert!(build_nav_items(&[], "/").is_empty());
}

#[test]
fn sections_above_the_shown_page_are_expanded() {
    let root = chapter("Root", Some("README.md"));
    let guide = chapter("Guide", Some("guide/README.md"));
    let intro = chapter("Intro", Some("guide/intro.md"));
    let other = chapter("Other", Some("other.md"));
    let chapters: Vec<&Chapter> = vec![&root, &guide, &intro, &other];
    let items = build_nav_items(&chapters, "/guide/intro");
    let expanded: Vec<bool> = items.iter().map(|i| i.is_expanded).collect();
    assert_eq!(expanded, vec![true, true, true, false]);
    let active: Vec<bool> = items.iter().map(|i| i.is_active).collect();
    assert_eq!(active, vec![false, false, true, false]);
    assert!(items.iter().all(|i| i.children.is_empty()));
}

#[test]
fn chapter_numbers_are_dotted() {
    assert_eq!(dotted_number(&vec![1, 2]), "1.2");
    assert_eq!(dotted_number(&vec![10, 0, 307]), "10.0.307");
    assert_eq!(dotted_number(&vec![4294967295]), "4294967295");
    assert_eq!(dotted_number(&vec![]), "");
    let mut numbered = chapter("N", Some("n.md"));
    numbered.number = Some(vec![3, 1, 4]);
    let plain = chapter("P", Some("p.md"));
    let chapters: Vec<&Chapter> = vec![&numbered, &plain];
    let items = build_nav_items(&chapters, "/");
    assert_eq!(items[0].number, Some("3.1.4".to_string()));
    assert_eq!(items[1].number, None);
}

#[test]
fn the_trail_runs_from_home_to_the_page() {
    let mut page = chapter("Deep Page", Some("a/b/page.md"));
    page.parent_names = vec!["User Guide".to_string(), "Getting Started".to_string()];
    let crumbs = build_breadcrumbs(&page, "/a/b/page");
    let titles: Vec<&str> = crumbs.iter().map(|c| c.title.as_str()).collect();
    assert_eq!(titles, vec!["Home", "User Guide", "Getting Started", "Deep Page"]);
    let paths: Vec<&str> = crumbs.iter().map(|c| c.path.as_str()).collect();
    assert_eq!(paths, vec!["/", "/user-guide", "/getting-started", "/a/b/page"]);
    let current: Vec<bool> = crumbs.iter().map(|c| c.is_current).collect();
    assert_eq!(current, vec![false, false, false, true]);
}

#[test]
fn on_the_home_page_the_trail_ends_with_the_ancestors() {
    let mut home = chapter("Start", Some("README.md"));
    home.parent_names = vec!["Part One".to_string()];
    let crumbs = build_breadcrumbs(&home, "/");
    assert_eq!(crumbs.len(), 2);
    assert_eq!(crumbs[0].title, "Home");
    assert_eq!(crumbs[0].path, "/");
    assert!(crumbs[0].is_current);
    assert_eq!(crumbs[1].path, "/part-one");
    assert!(!crumbs[1].is_current);
}

#[test]
fn updates_in_order() {
    let both = OobUpdates { sidebar: Some("S".to_string()), breadcrumb: Some("B".to_string()) };
    assert_eq!(both.to_html(), "SB");
    assert!(!both.is_empty());
    let one = OobUpdates { sidebar: None, breadcrumb: Some("B".to_string()) };
    assert_eq!(one.to_html(), "B");
    assert!(!one.is_empty());
}

#[test]
fn rendered_fragments_are_wrapped() {
    let updates = OobUpdates::from_rendered(Ok("<ul></ul>".to_string()), Ok("<ol></ol>".to_string()));
    assert_eq!(
        updates.sidebar,
        Some(r#"<nav id="sidebar" hx-swap-oob="true"><ul></ul></nav>"#.to_string())
    );
    assert_eq!(
        updates.breadcrumb,
        Some(
            r#"<nav id="breadcrumb" aria-label="Breadcrumb" hx-swap-oob="true"><ol></ol></nav>"#
                .to_string()
        )
    );
}

#[test]
fn a_template_that_fails_costs_only_its_update() {
    let updates = OobUpdates::from_rendered(Err("missing".to_string()), Ok("x".to_string()));
    assert!(updates.sidebar.is_none());
    assert!(updates.breadcrumb.is_some());
    let none = OobUpdates::from_rendered(Err("a".to_string()), Err("b".to_string()));
    assert!(none.is_empty());
}

#[test]
fn the_navigation_templates_get_their_contexts() {
    let mut page = chapter("Page", Some("guide/page.md"));
    page.parent_names = vec!["Guide".to_string()];
    let other = chapter("Other", Some("other.md"));
    let chapters: Vec<&Chapter> = vec![&page, &other];
    let calls = std::cell::RefCell::new(Vec::new());
    let render = |name: &str, context: &TemplateContext| -> Result<String, String> {
        let sidebar = context.sidebar.as_ref().map(|s| s.items.len());
        let crumbs = context.breadcrumb.as_ref().map(|b| b.crumbs.len());
        calls.borrow_mut().push((name.to_string(), sidebar, crumbs, context.active_path.clone()));
        if name == "partials/breadcrumb.html" {
            Err("no such template".to_string())
        } else {
            Ok(format!("[{}]", name))
        }
    };
    let updates = render_oob_updates(&render, &page, &chapters, "/guide/page");
    assert_eq!(
        updates.sidebar,
        Some(
            r#"<nav id="sidebar" hx-swap-oob="true">[partials/sidebar-oob.html]</nav>"#.to_string()
        )
    );
    assert!(updates.breadcrumb.is_none());
    let active = Some("/guide/page".to_string());
    assert_eq!(
        *calls.borrow(),
        vec![
            ("partials/sidebar-oob.html".to_string(), Some(2), None, active.clone()),
            ("partials/breadcrumb.html".to_string(), Some(2), Some(3), active),
        ]
    );
}
