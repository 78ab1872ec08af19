use mdbook_htmx::templates::{
    truncate_words, truncate_words_filter, TemplateContext, BREADCRUMB_TEMPLATE,
    DEFAULT_WORD_COUNT, FRAGMENT_TEMPLATE, PAGE_TEMPLATE, SIDEBAR_TEMPLATE,
};

#[test]
fn test_truncate_words() {
    let result = truncate_words_filter("one two three four five", Some(3));
    assert_eq!(result, "one two three...");
}

#[test]
fn texts_of_few_words_stay_as_they_are() {
    assert_eq!(truncate_words("one two three", 3), "one two three");
    assert_eq!(truncate_words("  one   two  ", 2), "  one   two  ");
    assert_eq!(truncate_words("", 0), "");
    assert_eq!(truncate_words("   ", 0), "   ");
    assert_eq!(truncate_words("one two", usize::MAX), "one two");
}

#[test]
fn longer_texts_are_cut_and_rejoined() {
    assert_eq!(truncate_words("  one \t two\nthree  ", 2), "one two...");
    assert_eq!(truncate_words("one two", 0), "...");
    assert_eq!(truncate_words("one two", 1), "one...");
    assert_eq!(truncate_words("eins zwei drei vier", 3), "eins zwei drei...");
}

#[test]
fn the_filter_keeps_fifty_words_by_default() {
    assert_eq!(DEFAULT_WORD_COUNT, 50);
    let fifty: Vec<String> = (1..=50).map(|n| n.to_string()).collect();
    let text = fifty.join(" ");
    assert_eq!(truncate_words_filter(&text, None), text);
    let longer = format!("{} 51", text);
    assert_eq!(truncate_words_filter(&longer, None), format!("{}...", text));
    assert_eq!(truncate_words_filter(&longer, Some(u64::MAX)), longer);
}

#[test]
fn template_names() {
    assert_eq!(PAGE_TEMPLATE, "docs/page.html");
    assert_eq!(FRAGMENT_TEMPLATE, "docs/fragment.html");
    assert_eq!(SIDEBAR_TEMPLATE, "partials/sidebar-oob.html");
    assert_eq!(BREADCRUMB_TEMPLATE, "partials/breadcrumb.html");
}

#[test]
fn a_new_context_sets_nothing() {
    let context = TemplateContext::new();
    assert!(context.page.is_none() && context.book.is_none() && context.htmx.is_none());
    assert!(context.prev_page.is_none() && context.next_page.is_none());
    assert!(context.sidebar.is_none() && context.active_path.is_none());
    assert!(context.breadcrumb.is_none());
}
