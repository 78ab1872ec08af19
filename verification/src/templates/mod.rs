//! What the templates get: the context of a page and of the navigation
//! fragments, the names of the templates, and the text filters.
//!
//! The renderer itself is handed in by the caller, as a function from a
//! template's name and a context to HTML or a complaint.

use vstd::prelude::*;
use crate::render::oob::{BreadcrumbContext, BreadcrumbModel, NavItemModel, SidebarContext};
use crate::text::{
    chars_of, join, join_words, opt_view, push_str, split_words, string_of, views, words,
    Separator,
};

verus! {

/// The template of a full page.
pub const PAGE_TEMPLATE: &'static str = "docs/page.html";

/// The template of a content fragment.
pub const FRAGMENT_TEMPLATE: &'static str = "docs/fragment.html";

/// The template of the sidebar that goes out with a fragment.
pub const SIDEBAR_TEMPLATE: &'static str = "partials/sidebar-oob.html";

/// The template of the breadcrumb trail.
pub const BREADCRUMB_TEMPLATE: &'static str = "partials/breadcrumb.html";

/// A link to a neighbouring page.
#[derive(Debug)]
pub struct PageLink {
    /// Title of the page
    pub title: String,
    /// URL of the page
    pub path: String,
}

/// What a template learns of the page it renders.
#[derive(Debug)]
pub struct PageData {
    /// Title: the metadata's, else the chapter's name
    pub title: String,
    /// Description from the metadata
    pub description: Option<String>,
    /// The chapter's content as HTML
    pub content: String,
    /// URL of the page
    pub path: String,
    /// Path of the chapter's source file
    pub source_path: Option<String>,
    /// The page's scope, where it has one
    pub scopes: Vec<String>,
    /// Whether the content is loaded lazily
    pub lazy: bool,
}

/// What a template learns of the book.
#[derive(Debug)]
pub struct BookData {
    /// Book title
    pub title: Option<String>,
    /// Book description
    pub description: Option<String>,
    /// Language code
    pub language: String,
}

/// What a template learns of the HTMX settings.
#[derive(Debug)]
pub struct HtmxData {
    /// Whether links are boosted
    pub boost: bool,
    /// Selector of the swap target
    pub target: String,
    /// Name of the swap strategy
    pub swap_strategy: String,
    /// Whether navigation pushes the URL
    pub push_url: bool,
    /// Whether the breadcrumb trail is shown
    pub breadcrumbs: bool,
    /// Whether the table of contents is shown
    pub toc: bool,
    /// Whether the links to the neighbouring pages are shown
    pub prev_next: bool,
}

/// The values that one rendering of a template can read, by their names. A
/// value that is absent is not set.
#[derive(Debug)]
pub struct TemplateContext {
    /// `page`
    pub page: Option<PageData>,
    /// `config.book`
    pub book: Option<BookData>,
    /// `config.htmx`
    pub htmx: Option<HtmxData>,
    /// `prev_page`
    pub prev_page: Option<PageLink>,
    /// `next_page`
    pub next_page: Option<PageLink>,
    /// `sidebar`; its items are also `navigation.items`
    pub sidebar: Option<SidebarContext>,
    /// `active_path`
    pub active_path: Option<String>,
    /// `breadcrumb`
    pub breadcrumb: Option<BreadcrumbContext>,
}

/// What a [`PageData`] holds.
pub struct PageDataModel {
    pub title: Seq<char>,
    pub description: Option<Seq<char>>,
    pub content: Seq<char>,
    pub path: Seq<char>,
    pub source_path: Option<Seq<char>>,
    pub scopes: Seq<Seq<char>>,
    pub lazy: bool,
}

/// What a [`BookData`] holds.
pub struct BookDataModel {
    pub title: Option<Seq<char>>,
    pub description: Option<Seq<char>>,
    pub language: Seq<char>,
}

/// What a [`HtmxData`] holds.
pub struct HtmxDataModel {
    pub boost: bool,
    pub target: Seq<char>,
    pub swap_strategy: Seq<char>,
    pub push_url: bool,
    pub breadcrumbs: bool,
    pub toc: bool,
    pub prev_next: bool,
}

/// What a [`crate::render::oob::SidebarContext`] holds.
pub struct SidebarModel {
    pub items: Seq<NavItemModel>,
    pub active_path: Seq<char>,
}

/// What a [`TemplateContext`] holds.
pub struct ContextModel {
    pub page: Option<PageDataModel>,
    pub book: Option<BookDataModel>,
    pub htmx: Option<HtmxDataModel>,
    pub prev_page: Option<(Seq<char>, Seq<char>)>,
    pub next_page: Option<(Seq<char>, Seq<char>)>,
    pub sidebar: Option<SidebarModel>,
    pub active_path: Option<Seq<char>>,
    pub breadcrumb: Option<Seq<BreadcrumbModel>>,
}

impl View for PageLink {
    type V = (Seq<char>, Seq<char>);

    open spec fn view(&self) -> (Seq<char>, Seq<char>) {
        (self.title@, self.path@)
    }
}

impl View for PageData {
    type V = PageDataModel;

    open spec fn view(&self) -> PageDataModel {
        PageDataModel {
            title: self.title@,
            description: opt_view(self.description),
            content: self.content@,
            path: self.path@,
            source_path: opt_view(self.source_path),
            scopes: views(self.scopes@),
            lazy: self.lazy,
        }
    }
}

impl View for BookData {
    type V = BookDataModel;

    open spec fn view(&self) -> BookDataModel {
        BookDataModel {
            title: opt_view(self.title),
            description: opt_view(self.description),
            language: self.language@,
        }
    }
}

impl View for HtmxData {
    type V = HtmxDataModel;

    open spec fn view(&self) -> HtmxDataModel {
        HtmxDataModel {
            boost: self.boost,
            target: self.target@,
            swap_strategy: self.swap_strategy@,
            push_url: self.push_url,
            breadcrumbs: self.breadcrumbs,
            toc: self.toc,
            prev_next: self.prev_next,
        }
    }
}

impl View for SidebarContext {
    type V = SidebarModel;

    open spec fn view(&self) -> SidebarModel {
        SidebarModel { items: views(self.items@), active_path: self.active_path@ }
    }
}

impl View for BreadcrumbContext {
    type V = Seq<BreadcrumbModel>;

    open spec fn view(&self) -> Seq<BreadcrumbModel> {
        views(self.crumbs@)
    }
}

/// The view of an optional value.
pub open spec fn some_view<T: View>(value: Option<T>) -> Option<T::V> {
    match value {
        Some(v) => Some(v@),
        None => None,
    }
}

impl View for TemplateContext {
    type V = ContextModel;

    open spec fn view(&self) -> ContextModel {
        ContextModel {
            page: some_view(self.page),
            book: some_view(self.book),
            htmx: some_view(self.htmx),
            prev_page: some_view(self.prev_page),
            next_page: some_view(self.next_page),
            sidebar: some_view(self.sidebar),
            active_path: opt_view(self.active_path),
            breadcrumb: some_view(self.breadcrumb),
        }
    }
}

/// The context in which nothing is set.
pub open spec fn empty_context() -> ContextModel {
    ContextModel {
        page: None,
        book: None,
        htmx: None,
        prev_page: None,
        next_page: None,
        sidebar: None,
        active_path: None,
        breadcrumb: None,
    }
}

impl TemplateContext {
    /// A context in which nothing is set.
    pub fn new() -> (r: Self)
        ensures
            r@ == empty_context(),
    {
        TemplateContext {
            page: None,
            book: None,
            htmx: None,
            prev_page: None,
            next_page: None,
            sidebar: None,
            active_path: None,
            breadcrumb: None,
        }
    }
}

/// How many words the `truncate_words` filter keeps when it is given no count.
pub const DEFAULT_WORD_COUNT: usize = 50;

/// `text` cut to its first `count` words: a text of no more words stays as it
/// is; of a longer one the first `count` words are joined by single spaces
/// and `...` is appended.
pub open spec fn first_words(text: Seq<char>, count: nat) -> Seq<char> {
    let all = words(text, Separator::Whitespace);
    if all.len() <= count {
        text
    } else {
        join(all.take(count as int), ' ') + "..."@
    }
}

/// Truncate text to a specified number of words.
pub fn truncate_words(text: &str, count: usize) -> (r: String)
    ensures
        r@ == first_words(text@, count as nat),
        words(text@, Separator::Whitespace).len() <= usize::MAX,
{
    let chars = chars_of(text);
    let mut all = split_words(&chars, Separator::Whitespace);
    assert(views(all@).len() == all@.len());
    if all.len() <= count {
        return text.to_owned();
    }
    let ghost whole = views(all@);
    all.truncate(count);
    assert(views(all@) == whole.take(count as int));
    let mut out = join_words(&all, ' ');
    push_str(&mut out, "...");
    string_of(&out)
}

/// Truncate text to the number of words that the filter was given, or to
/// [`DEFAULT_WORD_COUNT`] words where it was given none. A count too large to
/// be a length leaves every text as it is.
pub fn truncate_words_filter(text: &str, count: Option<u64>) -> (r: String)
    ensures
        r@ == first_words(
            text@,
            match count {
                Some(n) => n as nat,
                None => DEFAULT_WORD_COUNT as nat,
            },
        ),
{
    match count {
        Some(n) => if n > usize::MAX as u64 {
            truncate_words(text, usize::MAX)
        } else {
            truncate_words(text, n as usize)
        },
        None => truncate_words(text, DEFAULT_WORD_COUNT),
    }
}

} // verus!
