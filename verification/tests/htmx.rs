use mdbook_htmx::config::{HtmxConfig, SwapStrategy};
use mdbook_htmx::render::htmx::{
    inject_body_attrs, inject_htmx_attrs, inject_push_url, nav_link_attrs, preload_hint,
    swap_strategy_to_str,
};

#[test]
fn test_inject_body_attrs() {
    let html = r#"<html><body class="main"><div>Content</div></body></html>"#;
    let config = HtmxConfig::default();

    let result = inject_htmx_attrs(html, &config);

    assert!(result.contains("hx-boost=\"true\""));
    assert!(result.contains("hx-target=\"#content\""));
    assert!(result.contains("hx-swap=\"innerHTML\""));
}

#[test]
fn test_inject_body_attrs_custom_target() {
    let html = r#"<html><body><div>Content</div></body></html>"#;
    let mut config = HtmxConfig::default();
    config.target = "#main".to_string();
    config.swap_strategy = SwapStrategy::OuterHTML;

    let result = inject_htmx_attrs(html, &config);

    assert!(result.contains("hx-target=\"#main\""));
    assert!(result.contains("hx-swap=\"outerHTML\""));
}

#[test]
fn test_no_boost() {
    let html = r#"<html><body><div>Content</div></body></html>"#;
    let mut config = HtmxConfig::default();
    config.boost = false;

    let result = inject_htmx_attrs(html, &config);

    assert!(!result.contains("hx-boost"));
}

#[test]
fn test_nav_link_attrs() {
    let attrs = nav_link_attrs("#content", &SwapStrategy::InnerHTML, true);

    assert!(attrs.contains("hx-boost=\"true\""));
    assert!(attrs.contains("hx-target=\"#content\""));
    assert!(attrs.contains("hx-push-url=\"true\""));
}

#[test]
fn test_preload_hint() {
    let hint = preload_hint("/chapter/intro");
    assert_eq!(hint, r#"<link rel="prefetch" href="/chapter/intro" as="document">"#);
}

#[test]
fn test_swap_strategy_strings() {
    assert_eq!(swap_strategy_to_str(&SwapStrategy::InnerHTML), "innerHTML");
    assert_eq!(swap_strategy_to_str(&SwapStrategy::OuterHTML), "outerHTML");
    assert_eq!(swap_strategy_to_str(&SwapStrategy::BeforeBegin), "beforebegin");
    assert_eq!(swap_strategy_to_str(&SwapStrategy::AfterEnd), "afterend");
}

#[test]
fn the_attributes_go_before_the_end_of_the_body_tag() {
    let html = r#"<html><body class="main"><div>Content</div></body></html>"#;
    let result = inject_body_attrs(html, &HtmxConfig::default());
    assert_eq!(
        result,
        r##"<html><body class="main" hx-boost="true" hx-target="#content" hx-swap="innerHTML"><div>Content</div></body></html>"##
    );
    let bare = inject_body_attrs("<body>", &HtmxConfig::default());
    assert_eq!(bare, r##"<body hx-boost="true" hx-target="#content" hx-swap="innerHTML">"##);
}

#[test]
fn html_without_a_body_tag_stays() {
    let config = HtmxConfig::default();
    assert_eq!(inject_body_attrs("<div>x</div>", &config), "<div>x</div>");
    assert_eq!(inject_body_attrs("<p>a > b</p><body", &config), "<p>a > b</p><body");
    assert_eq!(inject_body_attrs("", &config), "");
    assert_eq!(inject_htmx_attrs("<div>ü</div>", &config), "<div>ü</div>");
}

#[test]
fn only_the_first_body_tag_changes() {
    let result = inject_body_attrs("<body><body>", &HtmxConfig::default());
    assert_eq!(
        result,
        r##"<body hx-boost="true" hx-target="#content" hx-swap="innerHTML"><body>"##
    );
}

#[test]
fn push_url_leaves_the_html_alone() {
    assert_eq!(inject_push_url("<a class=\"nav-link\">x</a>"), "<a class=\"nav-link\">x</a>");
    let mut config = HtmxConfig::default();
    config.boost = false;
    config.push_url = true;
    assert_eq!(inject_htmx_attrs("<body>", &config), "<body>");
}

#[test]
fn link_attributes_in_full() {
    assert_eq!(
        nav_link_attrs("#content", &SwapStrategy::InnerHTML, true),
        r##"hx-boost="true" hx-target="#content" hx-swap="innerHTML show:window:top" hx-push-url="true""##
    );
    assert_eq!(
        nav_link_attrs("#main", &SwapStrategy::NoSwap, false),
        r##"hx-boost="true" hx-target="#main" hx-swap="none show:window:top""##
    );
}
