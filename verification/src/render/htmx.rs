//! HTMX attribute injection: the attributes that make a page navigate by
//! partial updates.

use vstd::prelude::*;
use crate::config::{HtmxConfig, SwapStrategy};
use crate::text::{append, chars_of, find, find_first, push_str, slice, string_of};

verus! {

/// The attributes that go on the `<body>` tag for a target and a swap
/// strategy.
pub open spec fn body_attrs(target: Seq<char>, swap: SwapStrategy) -> Seq<char> {
    " hx-boost=\"true\" hx-target=\""@ + target + "\" hx-swap=\""@ + swap.name() + "\""@
}

/// Where the opening `<body` tag of `html` ends: the index of the first `>`
/// at or after the first `<body`.
pub open spec fn body_tag_end(html: Seq<char>) -> Option<int> {
    match find_first(html, "<body"@) {
        Some(at) => match find_first(html.skip(at), ">"@) {
            Some(end) => Some(at + end),
            None => None,
        },
        None => None,
    }
}

/// `html` with the attributes put at the end of its opening `<body` tag,
/// before the `>`; a text without such a tag stays as it is.
pub open spec fn with_body_attrs(html: Seq<char>, target: Seq<char>, swap: SwapStrategy) -> Seq<
    char,
> {
    match body_tag_end(html) {
        Some(end) => html.take(end) + body_attrs(target, swap) + html.skip(end),
        None => html,
    }
}

/// `html` as [`inject_htmx_attrs`] returns it under a configuration.
pub open spec fn with_htmx_attrs(html: Seq<char>, config: HtmxConfig) -> Seq<char> {
    if config.boost {
        with_body_attrs(html, config.target@, config.swap_strategy)
    } else {
        html
    }
}

/// Inject HTMX attributes into rendered HTML: with `boost` on, the opening
/// `<body` tag gets `hx-boost`, `hx-target` and `hx-swap`. Links get their
/// `hx-push-url` from the templates, so `push_url` changes nothing here.
pub fn inject_htmx_attrs(html: &str, config: &HtmxConfig) -> (r: String)
    ensures
        r@ == with_htmx_attrs(html@, *config),
{
    let mut html = html.to_owned();
    if config.boost {
        html = inject_body_attrs(html.as_str(), config);
    }
    if config.push_url {
        html = inject_push_url(html.as_str());
    }
    html
}

/// Convert SwapStrategy to its HTMX string representation.
pub fn swap_strategy_to_str(strategy: &SwapStrategy) -> (r: &'static str)
    ensures
        r@ == strategy.name(),
{
    strategy.as_str()
}

/// Inject HTMX attributes on the `<body>` tag.
pub fn inject_body_attrs(html: &str, config: &HtmxConfig) -> (r: String)
    ensures
        r@ == with_body_attrs(html@, config.target@, config.swap_strategy),
{
    let chars = chars_of(html);
    let body = chars_of("<body");
    let close = chars_of(">");
    if let Some(at) = find(&chars, &body) {
        let after = slice(&chars, at, chars.len());
        assert(after@ == chars@.skip(at as int));
        if let Some(end) = find(&after, &close) {
            let mut out = slice(&chars, 0, at + end);
            assert(out@ == chars@.take(at + end));
            push_str(&mut out, " hx-boost=\"true\" hx-target=\"");
            push_str(&mut out, config.target.as_str());
            push_str(&mut out, "\" hx-swap=\"");
            push_str(&mut out, swap_strategy_to_str(&config.swap_strategy));
            push_str(&mut out, "\"");
            let rest = slice(&chars, at + end, chars.len());
            assert(rest@ == chars@.skip(at + end));
            append(&mut out, &rest);
            assert(out@ == chars@.take(at + end) + body_attrs(
                config.target@,
                config.swap_strategy,
            ) + chars@.skip(at + end));
            return string_of(&out);
        }
    }
    html.to_owned()
}

/// Inject `hx-push-url="true"` on navigation links. The templates carry that
/// attribute themselves, so the text comes back unchanged.
pub fn inject_push_url(html: &str) -> (r: String)
    ensures
        r@ == html@,
{
    html.to_owned()
}

/// The HTMX attributes of a navigation link.
pub open spec fn link_attrs(target: Seq<char>, swap: SwapStrategy, push_url: bool) -> Seq<char> {
    let attrs = "hx-boost=\"true\" hx-target=\""@ + target + "\" hx-swap=\""@ + swap.name()
        + " show:window:top"@ + "\""@;
    if push_url {
        attrs + " hx-push-url=\"true\""@
    } else {
        attrs
    }
}

/// Generate HTMX attributes for a navigation link.
///
/// Returns a string of HTMX attributes to add to an `<a>` tag.
pub fn nav_link_attrs(target: &str, swap: &SwapStrategy, push_url: bool) -> (r: String)
    ensures
        r@ == link_attrs(target@, *swap, push_url),
{
    let mut attrs: Vec<char> = Vec::new();
    push_str(&mut attrs, "hx-boost=\"true\" hx-target=\"");
    push_str(&mut attrs, target);
    push_str(&mut attrs, "\" hx-swap=\"");
    push_str(&mut attrs, swap_strategy_to_str(swap));
    push_str(&mut attrs, " show:window:top");
    push_str(&mut attrs, "\"");
    if push_url {
        push_str(&mut attrs, " hx-push-url=\"true\"");
    }
    string_of(&attrs)
}

/// Generate preload hint for hover prefetching.
pub fn preload_hint(path: &str) -> (r: String)
    ensures
        r@ == "<link rel=\"prefetch\" href=\""@ + path@ + "\" as=\"document\">"@,
{
    let mut hint: Vec<char> = Vec::new();
    push_str(&mut hint, "<link rel=\"prefetch\" href=\"");
    push_str(&mut hint, path);
    push_str(&mut hint, "\" as=\"document\">");
    string_of(&hint)
}

} // verus!
