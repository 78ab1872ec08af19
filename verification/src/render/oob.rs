//! Out-of-band navigation fragments: the sidebar and the breadcrumb trail
//! that go out with a fragment, so that one request updates them too.

use vstd::prelude::*;
use crate::context::{pointed, Chapter};
use crate::paths::{
    chapter_stem, extension_of, lemma_path_url_injective, path_url, strip_extension, url_chars,
};
use crate::templates::{
    empty_context, ContextModel, SidebarModel, TemplateContext, BREADCRUMB_TEMPLATE,
    SIDEBAR_TEMPLATE,
};
use crate::text::{
    chars_eq, chars_of, decimal, decimal_chars, join, join_words, lowercased, opt_view, push_str,
    starts_with, str_eq, string_of, to_lowercase, views,
};

verus! {

/// Breadcrumb entry for navigation trail.
#[derive(Debug)]
pub struct Breadcrumb {
    /// Display title
    pub title: String,
    /// URL path
    pub path: String,
    /// Whether this is the current page
    pub is_current: bool,
}

/// Navigation item for sidebar.
#[derive(Debug)]
pub struct NavItem {
    /// Display title
    pub title: String,
    /// URL path
    pub path: String,
    /// Whether this item is currently active
    pub is_active: bool,
    /// Nested items (for collapsible sections)
    pub children: Vec<NavItem>,
    /// Whether this section is expanded
    pub is_expanded: bool,
    /// Chapter number (e.g., "1.2")
    pub number: Option<String>,
}

/// Context for rendering the sidebar.
#[derive(Debug)]
pub struct SidebarContext {
    /// Navigation items
    pub items: Vec<NavItem>,
    /// Currently active path
    pub active_path: String,
}

/// Context for rendering the breadcrumb trail.
#[derive(Debug)]
pub struct BreadcrumbContext {
    /// Breadcrumb trail
    pub crumbs: Vec<Breadcrumb>,
}

/// Out-of-band update result containing all generated out-of-band HTML.
#[derive(Debug, Clone)]
pub struct OobUpdates {
    /// Sidebar HTML
    pub sidebar: Option<String>,
    /// Breadcrumb HTML
    pub breadcrumb: Option<String>,
}

/// What a [`Breadcrumb`] holds.
pub struct BreadcrumbModel {
    pub title: Seq<char>,
    pub path: Seq<char>,
    pub is_current: bool,
}

/// What a [`NavItem`] holds.
pub struct NavItemModel {
    pub title: Seq<char>,
    pub path: Seq<char>,
    pub is_active: bool,
    pub children: Seq<NavItem>,
    pub is_expanded: bool,
    pub number: Option<Seq<char>>,
}

impl View for Breadcrumb {
    type V = BreadcrumbModel;

    open spec fn view(&self) -> BreadcrumbModel {
        BreadcrumbModel { title: self.title@, path: self.path@, is_current: self.is_current }
    }
}

impl View for NavItem {
    type V = NavItemModel;

    open spec fn view(&self) -> NavItemModel {
        NavItemModel {
            title: self.title@,
            path: self.path@,
            is_active: self.is_active,
            children: self.children@,
            is_expanded: self.is_expanded,
            number: opt_view(self.number),
        }
    }
}

impl Default for OobUpdates {
    fn default() -> (r: Self)
        ensures
            r.sidebar is None,
            r.breadcrumb is None,
    {
        OobUpdates { sidebar: None, breadcrumb: None }
    }
}

impl OobUpdates {
    /// All updates as one piece of HTML: the sidebar's, then the breadcrumb's.
    pub open spec fn html(&self) -> Seq<char> {
        let sidebar = match self.sidebar {
            Some(html) => html@,
            None => Seq::empty(),
        };
        let breadcrumb = match self.breadcrumb {
            Some(html) => html@,
            None => Seq::empty(),
        };
        sidebar + breadcrumb
    }

    /// Combine all out-of-band updates into a single HTML string.
    pub fn to_html(&self) -> (r: String)
        ensures
            r@ == self.html(),
    {
        let mut html: Vec<char> = Vec::new();
        if let Some(sidebar) = &self.sidebar {
            push_str(&mut html, sidebar.as_str());
        }
        if let Some(breadcrumb) = &self.breadcrumb {
            push_str(&mut html, breadcrumb.as_str());
        }
        string_of(&html)
    }

    /// Check if there are any out-of-band updates.
    pub fn is_empty(&self) -> (r: bool)
        ensures
            r == (self.sidebar is None && self.breadcrumb is None),
    {
        self.sidebar.is_none() && self.breadcrumb.is_none()
    }
}

/// The sidebar fragment around what its template rendered, or nothing where
/// the template failed.
pub open spec fn sidebar_update(rendered: Result<String, String>) -> Option<Seq<char>> {
    match rendered {
        Ok(html) => Some("<nav id=\"sidebar\" hx-swap-oob=\"true\">"@ + html@ + "</nav>"@),
        Err(_) => None,
    }
}

/// The breadcrumb fragment around what its template rendered, or nothing
/// where the template failed.
pub open spec fn breadcrumb_update(rendered: Result<String, String>) -> Option<Seq<char>> {
    match rendered {
        Ok(html) => Some(
            "<nav id=\"breadcrumb\" aria-label=\"Breadcrumb\" hx-swap-oob=\"true\">"@ + html@
                + "</nav>"@,
        ),
        Err(_) => None,
    }
}

/// The context of the sidebar template: the sidebar and the active path.
pub open spec fn sidebar_context(chapters: Seq<Chapter>, active: Seq<char>) -> ContextModel {
    ContextModel {
        sidebar: Some(SidebarModel { items: nav_items(chapters, active), active_path: active }),
        active_path: Some(active),
        ..empty_context()
    }
}

/// The context of the breadcrumb template: that of the sidebar template and
/// the trail.
pub open spec fn breadcrumb_context(
    chapter: Chapter,
    chapters: Seq<Chapter>,
    active: Seq<char>,
) -> ContextModel {
    ContextModel {
        breadcrumb: Some(breadcrumbs(chapter, active)),
        ..sidebar_context(chapters, active)
    }
}

/// `updates` is what the navigation templates, rendered by `render` for this
/// chapter, come to: each template is rendered once, in its context, and a
/// template that fails leaves its update out.
pub open spec fn oob_rendered<R: Fn(&str, &TemplateContext) -> Result<String, String>>(
    render: &R,
    chapter: Chapter,
    chapters: Seq<Chapter>,
    active: Seq<char>,
    updates: OobUpdates,
) -> bool {
    exists|
        sidebar_ctx: TemplateContext,
        sidebar: Result<String, String>,
        crumb_ctx: TemplateContext,
        crumbs: Result<String, String>,
    |
        {
            &&& sidebar_ctx@ == sidebar_context(chapters, active)
            &&& #[trigger] call_ensures(*render, (SIDEBAR_TEMPLATE, &sidebar_ctx), sidebar)
            &&& crumb_ctx@ == breadcrumb_context(chapter, chapters, active)
            &&& #[trigger] call_ensures(*render, (BREADCRUMB_TEMPLATE, &crumb_ctx), crumbs)
            &&& opt_view(updates.sidebar) == sidebar_update(sidebar)
            &&& opt_view(updates.breadcrumb) == breadcrumb_update(crumbs)
        }
}

impl OobUpdates {
    /// The updates that come of what the two navigation templates rendered.
    pub fn from_rendered(sidebar: Result<String, String>, breadcrumb: Result<String, String>) -> (r:
        Self)
        ensures
            opt_view(r.sidebar) == sidebar_update(sidebar),
            opt_view(r.breadcrumb) == breadcrumb_update(breadcrumb),
    {
        let sidebar = match sidebar {
            Ok(html) => {
                let mut nav: Vec<char> = Vec::new();
                push_str(&mut nav, "<nav id=\"sidebar\" hx-swap-oob=\"true\">");
                push_str(&mut nav, html.as_str());
                push_str(&mut nav, "</nav>");
                Some(string_of(&nav))
            },
            Err(_) => None,
        };
        let breadcrumb = match breadcrumb {
            Ok(html) => {
                let mut nav: Vec<char> = Vec::new();
                push_str(
                    &mut nav,
                    "<nav id=\"breadcrumb\" aria-label=\"Breadcrumb\" hx-swap-oob=\"true\">",
                );
                push_str(&mut nav, html.as_str());
                push_str(&mut nav, "</nav>");
                Some(string_of(&nav))
            },
            Err(_) => None,
        };
        OobUpdates { sidebar, breadcrumb }
    }
}

/// Render the out-of-band updates for a chapter: the sidebar and the
/// breadcrumb trail, each wrapped for its place in the page. A template that
/// cannot be rendered costs its update and nothing else.
pub fn render_oob_updates<R: Fn(&str, &TemplateContext) -> Result<String, String>>(
    render: &R,
    chapter: &Chapter,
    all_chapters: &[&Chapter],
    active_path: &str,
) -> (r: OobUpdates)
    requires
        forall|name: &str, context: &TemplateContext| call_requires(*render, (name, context)),
    ensures
        oob_rendered(render, *chapter, pointed(all_chapters@), active_path@, r),
{
    let mut sidebar_ctx = TemplateContext::new();
    sidebar_ctx.sidebar = Some(
        SidebarContext {
            items: build_nav_items(all_chapters, active_path),
            active_path: active_path.to_owned(),
        },
    );
    sidebar_ctx.active_path = Some(active_path.to_owned());
    let sidebar = render(SIDEBAR_TEMPLATE, &sidebar_ctx);

    let mut crumb_ctx = TemplateContext::new();
    crumb_ctx.sidebar = Some(
        SidebarContext {
            items: build_nav_items(all_chapters, active_path),
            active_path: active_path.to_owned(),
        },
    );
    crumb_ctx.active_path = Some(active_path.to_owned());
    crumb_ctx.breadcrumb = Some(BreadcrumbContext { crumbs: build_breadcrumbs(chapter, active_path) });
    let crumbs = render(BREADCRUMB_TEMPLATE, &crumb_ctx);

    let updates = OobUpdates::from_rendered(sidebar, crumbs);
    assert(sidebar_ctx@ == sidebar_context(pointed(all_chapters@), active_path@));
    assert(crumb_ctx@ == breadcrumb_context(*chapter, pointed(all_chapters@), active_path@));
    assert(call_ensures(*render, (SIDEBAR_TEMPLATE, &sidebar_ctx), sidebar));
    assert(call_ensures(*render, (BREADCRUMB_TEMPLATE, &crumb_ctx), crumbs));
    updates
}

/// Convert file path to URL path: the extension goes, `README` stands for its
/// directory, and every other path gets a leading slash.
pub fn path_to_url(path: &str) -> (r: String)
    ensures
        r@ == path_url(path@),
{
    let chars = chars_of(path);
    let url = url_chars(&chars);
    string_of(&url)
}

/// The decimal notations of the numbers, in order.
pub open spec fn decimals(number: Seq<u32>) -> Seq<Seq<char>> {
    Seq::new(number.len(), |i: int| decimal(number[i] as nat))
}

/// A chapter number in dotted notation: `[1, 2]` is `1.2`.
pub open spec fn dotted(number: Seq<u32>) -> Seq<char> {
    join(decimals(number), '.')
}

/// Writes a chapter number in dotted notation.
pub fn dotted_number(number: &Vec<u32>) -> (r: String)
    ensures
        r@ == dotted(number@),
{
    let mut parts: Vec<Vec<char>> = Vec::new();
    let mut i: usize = 0;
    while i < number.len()
        invariant
            i <= number.len(),
            parts@.len() == i,
            views(parts@) == decimals(number@).take(i as int),
        decreases number.len() - i,
    {
        let ghost before = views(parts@);
        let part = decimal_chars(number[i]);
        parts.push(part);
        assert(views(parts@) == before.push(part@));
        assert(decimals(number@).take(i + 1) == decimals(number@).take(i as int).push(
            decimals(number@)[i as int],
        ));
        i += 1;
    }
    assert(decimals(number@).take(number.len() as int) == decimals(number@));
    let joined = join_words(&parts, '.');
    string_of(&joined)
}

/// The sidebar item of a chapter whose file is at `path`, while the page at
/// `active` is shown: it is active when its URL is `active`, and expanded when
/// `active` begins with its URL.
pub open spec fn nav_item(chapter: Chapter, path: Seq<char>, active: Seq<char>) -> NavItemModel {
    let url = path_url(path);
    NavItemModel {
        title: chapter.name@,
        path: url,
        is_active: url == active,
        children: Seq::empty(),
        is_expanded: url == active || url.is_prefix_of(active),
        number: match chapter.number {
            Some(number) => Some(dotted(number@)),
            None => None,
        },
    }
}

/// The sidebar of a book: one item for each chapter that has a path, in
/// document order. Drafts are left out.
pub open spec fn nav_items(chapters: Seq<Chapter>, active: Seq<char>) -> Seq<NavItemModel>
    decreases chapters.len(),
{
    if chapters.len() == 0 {
        Seq::empty()
    } else {
        let before = nav_items(chapters.drop_last(), active);
        match chapters.last().path {
            Some(path) => before.push(nav_item(chapters.last(), path@, active)),
            None => before,
        }
    }
}

/// Build navigation items from chapters.
pub fn build_nav_items(chapters: &[&Chapter], active_path: &str) -> (r: Vec<NavItem>)
    ensures
        views(r@) == nav_items(pointed(chapters@), active_path@),
{
    let active = chars_of(active_path);
    let mut items: Vec<NavItem> = Vec::new();
    let mut i: usize = 0;
    assert(views(items@) == Seq::<NavItemModel>::empty());
    while i < chapters.len()
        invariant
            i <= chapters.len(),
            active@ == active_path@,
            views(items@) == nav_items(pointed(chapters@).take(i as int), active_path@),
        decreases chapters.len() - i,
    {
        let chapter = chapters[i];
        proof {
            assert(pointed(chapters@).take(i + 1).drop_last() == pointed(chapters@).take(i as int));
            assert(pointed(chapters@).take(i + 1).last() == *chapter);
        }
        if let Some(path) = &chapter.path {
            let path_chars = chars_of(path.as_str());
            let url = url_chars(&path_chars);
            let is_active = chars_eq(&url, &active);
            let is_expanded = is_active || starts_with(&active, &url);
            let item = NavItem {
                title: chapter.name.clone(),
                path: string_of(&url),
                is_active,
                children: Vec::new(),
                is_expanded,
                number: match &chapter.number {
                    Some(number) => Some(dotted_number(number)),
                    None => None,
                },
            };
            let ghost before = views(items@);
            assert(item.children@ == Seq::<NavItem>::empty());
            assert(item@ == nav_item(*chapter, path@, active_path@));
            items.push(item);
            assert(views(items@) == before.push(item@));
        }
        i += 1;
    }
    assert(pointed(chapters@).take(chapters.len() as int) == pointed(chapters@));
    items
}

/// The item that the sidebar holds for chapter `k` is at the same place when
/// every chapter has a path.
proof fn lemma_nav_items_all(chapters: Seq<Chapter>, active: Seq<char>)
    requires
        forall|i: int| 0 <= i < chapters.len() ==> (#[trigger] chapters[i]).path is Some,
    ensures
        nav_items(chapters, active).len() == chapters.len(),
        forall|i: int|
            0 <= i < chapters.len() ==> #[trigger] nav_items(chapters, active)[i] == nav_item(
                chapters[i],
                chapters[i].path->0@,
                active,
            ),
    decreases chapters.len(),
{
    if chapters.len() > 0 {
        let front = chapters.drop_last();
        assert forall|i: int| 0 <= i < front.len() implies (#[trigger] front[i]).path is Some by {
            assert(front[i] == chapters[i]);
        }
        lemma_nav_items_all(front, active);
        assert(chapters[chapters.len() - 1].path is Some);
        assert forall|i: int| 0 <= i < chapters.len() implies #[trigger] nav_items(
            chapters,
            active,
        )[i] == nav_item(chapters[i], chapters[i].path->0@, active) by {
            if i < front.len() {
                assert(front[i] == chapters[i]);
                assert(nav_items(chapters, active)[i] == nav_items(front, active)[i]);
            }
        }
    }
}

/// While the page of one chapter is shown, the sidebar marks that chapter and
/// no other as active. This holds of every book whose chapters have distinct
/// paths with one extension and stems that chapters can have.
pub proof fn lemma_one_active(chapters: Seq<Chapter>, shown: int)
    requires
        0 <= shown < chapters.len(),
        forall|i: int|
            0 <= i < chapters.len() ==> ((#[trigger] chapters[i]).path matches Some(path)
                && chapter_stem(strip_extension(path@)) && extension_of(path@) == extension_of(
                chapters[0].path->0@,
            )),
        forall|i: int, j: int|
            0 <= i < j < chapters.len() ==> (#[trigger] chapters[i]).path->0@ != (
            #[trigger] chapters[j]).path->0@,
    ensures
        ({
            let items = nav_items(chapters, path_url(chapters[shown].path->0@));
            &&& items.len() == chapters.len()
            &&& forall|i: int| 0 <= i < items.len() ==> ((#[trigger] items[i]).is_active <==> i == shown)
        }),
{
    let active = path_url(chapters[shown].path->0@);
    let items = nav_items(chapters, active);
    assert(forall|i: int| 0 <= i < chapters.len() ==> (#[trigger] chapters[i]).path is Some);
    lemma_nav_items_all(chapters, active);
    assert forall|i: int| 0 <= i < items.len() implies ((#[trigger] items[i]).is_active <==> i
        == shown) by {
        assert(chapters[i].path is Some);
        assert(chapters[shown].path is Some);
        if items[i].is_active && i != shown {
            lemma_path_url_injective(chapters[i].path->0@, chapters[shown].path->0@);
            if i < shown {
                assert(chapters[i].path->0@ != chapters[shown].path->0@);
            } else {
                assert(chapters[shown].path->0@ != chapters[i].path->0@);
            }
        }
    }
}

/// `text` with every space turned into a hyphen.
pub open spec fn hyphenated(text: Seq<char>) -> Seq<char> {
    Seq::new(text.len(), |i: int| if text[i] == ' ' { '-' } else { text[i] })
}

/// The crumb of an ancestor. Its path is made from its name alone, lowercase
/// and hyphenated; it is not the URL of the ancestor's page.
pub open spec fn parent_crumb(name: Seq<char>) -> BreadcrumbModel {
    BreadcrumbModel {
        title: name,
        path: seq!['/'] + hyphenated(lowercased(name)),
        is_current: false,
    }
}

/// The crumbs of the ancestors, in order.
pub open spec fn parent_crumbs(names: Seq<String>) -> Seq<BreadcrumbModel> {
    Seq::new(names.len(), |i: int| parent_crumb(names[i]@))
}

/// The breadcrumb trail of a chapter whose page is at `active`: `Home`, which
/// is current only on the page `/`; the chapter's ancestors, root first; and,
/// on every page but `/`, the chapter itself as the current entry.
pub open spec fn breadcrumbs(chapter: Chapter, active: Seq<char>) -> Seq<BreadcrumbModel> {
    let home = BreadcrumbModel { title: "Home"@, path: "/"@, is_current: active == "/"@ };
    let upper = seq![home] + parent_crumbs(chapter.parent_names@);
    if active == "/"@ {
        upper
    } else {
        upper.push(BreadcrumbModel { title: chapter.name@, path: active, is_current: true })
    }
}

/// Build breadcrumb trail for a chapter.
pub fn build_breadcrumbs(chapter: &Chapter, active_path: &str) -> (r: Vec<Breadcrumb>)
    ensures
        views(r@) == breadcrumbs(*chapter, active_path@),
{
    let at_home = str_eq(active_path, "/");
    let mut crumbs: Vec<Breadcrumb> = Vec::new();
    let home = Breadcrumb { title: "Home".to_owned(), path: "/".to_owned(), is_current: at_home };
    crumbs.push(home);
    assert(views(crumbs@) == seq![home@] + parent_crumbs(chapter.parent_names@).take(0));
    let mut i: usize = 0;
    while i < chapter.parent_names.len()
        invariant
            i <= chapter.parent_names.len(),
            views(crumbs@) == seq![home@] + parent_crumbs(chapter.parent_names@).take(i as int),
        decreases chapter.parent_names.len() - i,
    {
        let parent = &chapter.parent_names[i];
        let lower = to_lowercase(parent.as_str());
        let lower_chars = chars_of(lower.as_str());
        let mut path: Vec<char> = Vec::new();
        path.push('/');
        let mut k: usize = 0;
        while k < lower_chars.len()
            invariant
                k <= lower_chars.len(),
                path@ == seq!['/'] + hyphenated(lower_chars@).take(k as int),
            decreases lower_chars.len() - k,
        {
            let c = lower_chars[k];
            path.push(if c == ' ' { '-' } else { c });
            assert(hyphenated(lower_chars@).take(k + 1) == hyphenated(lower_chars@).take(
                k as int,
            ).push(hyphenated(lower_chars@)[k as int]));
            k += 1;
        }
        assert(hyphenated(lower_chars@).take(lower_chars.len() as int) == hyphenated(
            lower_chars@,
        ));
        let crumb = Breadcrumb { title: parent.clone(), path: string_of(&path), is_current: false };
        let ghost before = views(crumbs@);
        crumbs.push(crumb);
        assert(crumb@ == parent_crumb(parent@));
        assert(views(crumbs@) == before.push(crumb@));
        assert(parent_crumbs(chapter.parent_names@).take(i + 1) == parent_crumbs(
            chapter.parent_names@,
        ).take(i as int).push(parent_crumbs(chapter.parent_names@)[i as int]));
        i += 1;
    }
    assert(parent_crumbs(chapter.parent_names@).take(chapter.parent_names.len() as int)
        == parent_crumbs(chapter.parent_names@));
    if !at_home {
        let current = Breadcrumb {
            title: chapter.name.clone(),
            path: active_path.to_owned(),
            is_current: true,
        };
        let ghost before = views(crumbs@);
        crumbs.push(current);
        assert(views(crumbs@) == before.push(current@));
    }
    crumbs
}

} // verus!
