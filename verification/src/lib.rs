//! Static documentation rendering with server-assisted partial-page navigation.
//!
//! A tree of chapters goes in; full pages, content fragments, a page manifest
//! and a search index come out, each page annotated with the access policy
//! that its metadata declares. The library computes; reading the book,
//! decoding the metadata blocks, running the templates and writing files are
//! the caller's, who hands the decoder and the renderer in as functions.

pub mod assets;
pub mod config;
pub mod context;
pub mod error;
pub mod frontmatter;
pub mod manifest;
pub mod markdown;
pub mod paths;
pub mod render;
pub mod search;
pub mod templates;
pub mod text;

use vstd::prelude::*;

pub use crate::config::{HtmxConfig, OutputMode};
pub use crate::context::{Chapter, RenderContext};
pub use crate::error::BuildError;

use crate::assets::{compute_short_hash, short_form, xxh3_hash};
use crate::config::SearchConfig;
use crate::context::{flatten, pointed, supported, BookMetadata};
use crate::frontmatter::{block_of, parse_frontmatter, split_frontmatter, Frontmatter};
use crate::manifest::{manifest_schema, Manifest, PageEntry, PageModel};
use crate::markdown::{
    markdown_events, markdown_html, EXCERPT_EXTENSIONS, HEADING_ATTRIBUTES, PAGE_EXTENSIONS,
};
use crate::paths::{join_path, joined, path_url, replace_extension, with_extension};
use crate::render::markdown_to_html;
use crate::render::oob::{
    build_nav_items, nav_items, oob_rendered, path_to_url, render_oob_updates, OobUpdates,
    SidebarContext,
};
use crate::templates::{
    empty_context, some_view, BookData, BookDataModel, ContextModel, HtmxData, HtmxDataModel,
    PageData, PageDataModel, PageLink, SidebarModel, TemplateContext, FRAGMENT_TEMPLATE,
    PAGE_TEMPLATE,
};
use crate::search::{
    document_of, document_view, DocumentModel, IndexModel, SearchDocumentBuilder, SearchIndex,
};
use crate::text::{
    chars_of, clone_opt, clone_opt_list, opt_view, opt_views, push_str, string_of, views,
};

verus! {

/// The main renderer that processes a book and produces HTMX-enhanced HTML.
#[derive(Debug)]
pub struct HtmxRenderer {
    /// The render context of the pass
    pub ctx: RenderContext,
    /// HTMX-specific configuration
    pub config: HtmxConfig,
    /// Output directory
    pub output_dir: String,
}

/// Result of rendering a single chapter.
#[derive(Debug)]
pub struct RenderedChapter {
    /// The full HTML page (with layout)
    pub page: String,
    /// The content-only fragment (for HTMX)
    pub fragment: String,
    /// Parsed frontmatter
    pub frontmatter: Frontmatter,
    /// Output path relative to output directory
    pub path: String,
}

/// What a render pass produced.
#[derive(Debug)]
pub struct RenderPass {
    /// The chapters that were rendered, in document order
    pub chapters: Vec<RenderedChapter>,
    /// The manifest of the rendered chapters
    pub manifest: Manifest,
    /// The search index of the rendered chapters
    pub search_index: SearchIndex,
    /// The error that ended the pass before its last chapter, if one did
    pub failure: Option<BuildError>,
}

/// The chapter that a reference stands for, if there is one.
pub open spec fn referent(chapter: Option<&Chapter>) -> Option<Chapter> {
    match chapter {
        Some(c) => Some(*c),
        None => None,
    }
}

/// The link to a neighbouring chapter: its name and URL. A missing neighbour
/// and a draft have none.
pub open spec fn link_to(neighbour: Option<Chapter>) -> Option<(Seq<char>, Seq<char>)> {
    match neighbour {
        Some(chapter) => match chapter.path {
            Some(path) => Some((chapter.name@, path_url(path@))),
            None => None,
        },
        None => None,
    }
}

/// The title of a page: the one its metadata sets, else the chapter's name.
pub open spec fn page_title(chapter: Chapter, frontmatter: Frontmatter) -> Seq<char> {
    match frontmatter.title {
        Some(title) => title@,
        None => chapter.name@,
    }
}

/// The scopes of a page: its scope, where its metadata sets one.
pub open spec fn page_scopes(frontmatter: Frontmatter) -> Seq<Seq<char>> {
    match frontmatter.scope {
        Some(scope) => seq![scope@],
        None => Seq::empty(),
    }
}

/// The context in which the page and the fragment of a chapter are rendered.
/// `content` is the chapter's content as HTML.
pub open spec fn page_context(
    config: HtmxConfig,
    book: BookMetadata,
    chapter: Chapter,
    prev: Option<Chapter>,
    next: Option<Chapter>,
    chapters: Seq<Chapter>,
    frontmatter: Frontmatter,
    content: Seq<char>,
) -> ContextModel {
    let active = path_url(chapter.path->0@);
    ContextModel {
        page: Some(
            PageDataModel {
                title: page_title(chapter, frontmatter),
                description: opt_view(frontmatter.description),
                content,
                path: active,
                source_path: opt_view(chapter.source_path),
                scopes: page_scopes(frontmatter),
                lazy: false,
            },
        ),
        book: Some(
            BookDataModel {
                title: opt_view(book.title),
                description: opt_view(book.description),
                language: book.language@,
            },
        ),
        htmx: Some(
            HtmxDataModel {
                boost: config.boost,
                target: config.target@,
                swap_strategy: config.swap_strategy.name(),
                push_url: config.push_url,
                breadcrumbs: config.navigation.breadcrumbs,
                toc: config.navigation.toc,
                prev_next: config.navigation.prev_next,
            },
        ),
        prev_page: link_to(prev),
        next_page: link_to(next),
        sidebar: Some(SidebarModel { items: nav_items(chapters, active), active_path: active }),
        ..empty_context()
    }
}

/// The error for a template that could not be rendered: it names the
/// template, and its text names the kind of output and the chapter's path
/// before the renderer's complaint.
pub open spec fn is_template_error(
    r: Result<RenderedChapter, BuildError>,
    template: Seq<char>,
    kind: Seq<char>,
    path: Seq<char>,
    detail: Seq<char>,
) -> bool {
    r matches Err(BuildError::TemplateError { template: name, source }) && name@ == template
        && source@ == "Failed to render "@ + kind + " template for "@ + path + ": "@ + detail
}

/// What rendering a chapter comes to, once the renderer has answered: the
/// page as rendered, the fragment with the out-of-band updates `oob` appended
/// to it, the metadata and the output path; or the error for the template
/// that failed. The fragment is rendered only after the page.
pub open spec fn chapter_result(
    r: Result<RenderedChapter, BuildError>,
    page: Result<String, String>,
    fragment: Option<Result<String, String>>,
    oob: Seq<char>,
    frontmatter: Frontmatter,
    path: Seq<char>,
) -> bool {
    match page {
        Err(detail) => is_template_error(r, PAGE_TEMPLATE@, "page"@, path, detail@),
        Ok(page_html) => match fragment {
            Some(Err(detail)) => is_template_error(
                r,
                FRAGMENT_TEMPLATE@,
                "fragment"@,
                path,
                detail@,
            ),
            Some(Ok(fragment_html)) => r matches Ok(rendered) && rendered.page@ == page_html@
                && rendered.fragment@ == fragment_html@ + oob && rendered.frontmatter
                == frontmatter && rendered.path@ == replace_extension(path, "html"@),
            None => false,
        },
    }
}

/// The manifest entry of a rendered chapter.
pub open spec fn manifest_entry(chapter: Chapter, rendered: RenderedChapter) -> PageModel {
    PageModel {
        title: page_title(chapter, rendered.frontmatter),
        source: match chapter.source_path {
            Some(source) => source@,
            None => chapter.path->0@,
        },
        page_path: join_path("pages"@, rendered.path@),
        fragment_path: join_path("fragments"@, rendered.path@),
        scope: opt_view(rendered.frontmatter.scope),
        authn: match rendered.frontmatter.authn {
            Some(level) => Some(level.name()),
            None => None,
        },
        authz: opt_views(rendered.frontmatter.authz),
        fallback: opt_view(rendered.frontmatter.fallback),
        content_hash: short_form(xxh3_hash(vstd::utf8::encode_utf8(rendered.page@))),
    }
}

/// The places in `chapters` of the chapters that have a path, in order.
pub open spec fn published(chapters: Seq<Chapter>) -> Seq<int>
    decreases chapters.len(),
{
    if chapters.len() == 0 {
        Seq::empty()
    } else if chapters.last().path is Some {
        published(chapters.drop_last()).push(chapters.len() - 1)
    } else {
        published(chapters.drop_last())
    }
}

/// The chapter at place `at`, if there is one.
pub open spec fn neighbour(chapters: Seq<Chapter>, at: int) -> Option<Chapter> {
    if 0 <= at < chapters.len() {
        Some(chapters[at])
    } else {
        None
    }
}

/// The pages of the manifest after the first `count` published chapters.
pub open spec fn manifest_pages(
    chapters: Seq<Chapter>,
    rendered: Seq<RenderedChapter>,
    count: int,
) -> Map<Seq<char>, PageModel>
    decreases count,
{
    if count <= 0 {
        Map::empty()
    } else {
        let chapter = chapters[published(chapters)[count - 1]];
        manifest_pages(chapters, rendered, count - 1).insert(
            path_url(chapter.path->0@),
            manifest_entry(chapter, rendered[count - 1]),
        )
    }
}

/// The content of a chapter: what follows its metadata block, or all of its
/// text where it has no block.
pub open spec fn content_of(chapter: Chapter) -> Seq<char> {
    match block_of(chapter.content@) {
        Some((_, rest)) => rest,
        None => chapter.content@,
    }
}

/// The search document of a rendered chapter, if the chapter is indexed.
pub open spec fn search_document(
    config: SearchConfig,
    chapter: Chapter,
    rendered: RenderedChapter,
) -> Option<DocumentModel> {
    document_of(
        config,
        path_url(chapter.path->0@),
        page_title(chapter, rendered.frontmatter),
        markdown_events(content_of(chapter), HEADING_ATTRIBUTES),
        markdown_events(content_of(chapter), EXCERPT_EXTENSIONS),
        rendered.frontmatter,
    )
}

/// The documents of the search index after the first `count` published
/// chapters, in document order.
pub open spec fn search_documents(
    config: SearchConfig,
    chapters: Seq<Chapter>,
    rendered: Seq<RenderedChapter>,
    count: int,
) -> Seq<DocumentModel>
    decreases count,
{
    if count <= 0 {
        Seq::empty()
    } else {
        let before = search_documents(config, chapters, rendered, count - 1);
        match search_document(config, chapters[published(chapters)[count - 1]], rendered[count - 1]) {
            Some(document) => before.push(document),
            None => before,
        }
    }
}

proof fn lemma_search_documents_prefix(
    config: SearchConfig,
    chapters: Seq<Chapter>,
    rendered: Seq<RenderedChapter>,
    longer: Seq<RenderedChapter>,
    count: int,
)
    requires
        0 <= count <= rendered.len() <= longer.len(),
        rendered == longer.take(rendered.len() as int),
    ensures
        search_documents(config, chapters, rendered, count) == search_documents(
            config,
            chapters,
            longer,
            count,
        ),
    decreases count,
{
    if count > 0 {
        lemma_search_documents_prefix(config, chapters, rendered, longer, count - 1);
        assert(rendered[count - 1] == longer[count - 1]);
    }
}

/// Where no two published chapters share a URL, the manifest holds one page
/// for each rendered chapter.
pub proof fn lemma_one_page_per_chapter(
    chapters: Seq<Chapter>,
    rendered: Seq<RenderedChapter>,
    count: int,
)
    requires
        0 <= count <= published(chapters).len(),
        forall|i: int, j: int|
            0 <= i < j < count ==> path_url(chapters[#[trigger] published(chapters)[i]].path->0@)
                != path_url(chapters[#[trigger] published(chapters)[j]].path->0@),
    ensures
        manifest_pages(chapters, rendered, count).dom().finite(),
        manifest_pages(chapters, rendered, count).dom().len() == count,
        forall|i: int|
            0 <= i < count ==> manifest_pages(chapters, rendered, count).dom().contains(
                path_url(chapters[#[trigger] published(chapters)[i]].path->0@),
            ),
        forall|url: Seq<char>|
            manifest_pages(chapters, rendered, count).dom().contains(url) ==> exists|i: int|
                0 <= i < count && url == path_url(
                    chapters[#[trigger] published(chapters)[i]].path->0@,
                ),
    decreases count,
{
    if count > 0 {
        lemma_one_page_per_chapter(chapters, rendered, count - 1);
        let before = manifest_pages(chapters, rendered, count - 1);
        let places = published(chapters);
        let url = path_url(chapters[places[count - 1]].path->0@);
        assert(!before.dom().contains(url)) by {
            if before.dom().contains(url) {
                let i = choose|i: int|
                    0 <= i < count - 1 && url == path_url(
                        chapters[#[trigger] published(chapters)[i]].path->0@,
                    );
                assert(path_url(chapters[published(chapters)[i]].path->0@) != path_url(
                    chapters[published(chapters)[count - 1]].path->0@,
                ));
            }
        }
        let after = manifest_pages(chapters, rendered, count);
        assert(after.dom() == before.dom().insert(url));
        assert forall|u: Seq<char>| after.dom().contains(u) implies exists|i: int|
            0 <= i < count && u == path_url(
                chapters[#[trigger] published(chapters)[i]].path->0@,
            ) by {
            if u == url {
                assert(u == path_url(chapters[published(chapters)[count - 1]].path->0@));
            } else {
                assert(before.dom().contains(u));
                let i = choose|i: int|
                    0 <= i < count - 1 && u == path_url(
                        chapters[#[trigger] published(chapters)[i]].path->0@,
                    );
                assert(u == path_url(chapters[published(chapters)[i]].path->0@));
            }
        }
    }
}

proof fn lemma_published(chapters: Seq<Chapter>, n: int)
    requires
        0 <= n <= chapters.len(),
    ensures
        published(chapters.take(n)).len() <= published(chapters).len(),
        published(chapters.take(n)) == published(chapters).take(
            published(chapters.take(n)).len() as int,
        ),
        forall|k: int|
            0 <= k < published(chapters).len() ==> 0 <= #[trigger] published(chapters)[k]
                < chapters.len() && chapters[published(chapters)[k]].path is Some,
        forall|k: int|
            published(chapters.take(n)).len() <= k < published(chapters).len() ==> n
                <= #[trigger] published(chapters)[k],
    decreases chapters.len(),
{
    if chapters.len() == 0 {
        assert(chapters.take(n) == chapters);
    } else if n == chapters.len() {
        assert(chapters.take(n) == chapters);
        lemma_published(chapters.drop_last(), n - 1);
        assert(chapters.drop_last().take(n - 1) == chapters.drop_last());
    } else {
        let front = chapters.drop_last();
        lemma_published(front, n);
        assert(front.take(n) == chapters.take(n));
    }
}

proof fn lemma_manifest_pages_prefix(
    chapters: Seq<Chapter>,
    rendered: Seq<RenderedChapter>,
    longer: Seq<RenderedChapter>,
    count: int,
)
    requires
        0 <= count <= rendered.len() <= longer.len(),
        rendered == longer.take(rendered.len() as int),
    ensures
        manifest_pages(chapters, rendered, count) == manifest_pages(chapters, longer, count),
    decreases count,
{
    if count > 0 {
        lemma_manifest_pages_prefix(chapters, rendered, longer, count - 1);
        assert(rendered[count - 1] == longer[count - 1]);
    }
}

impl HtmxRenderer {
    /// Create a renderer for a book and a configuration. The version of the
    /// host build tool has to be a supported one and the configuration valid;
    /// the output goes to the destination that the context names.
    pub fn new(ctx: RenderContext, config: HtmxConfig) -> (r: Result<Self, BuildError>)
        ensures
            !supported(ctx.version@) ==> (r matches Err(BuildError::ConfigError(text)) && text@
                == "MDBook version "@ + ctx.version@ + " is not supported. Requires 0.4.21+"@),
            supported(ctx.version@) && !config.version_supported() ==> (r matches Err(
                BuildError::ConfigError(text),
            ) && text@ == "Unsupported config version: "@ + config.version@ + ". Expected 1.x"@),
            supported(ctx.version@) && config.version_supported() ==> (r matches Ok(renderer)
                && renderer.ctx == ctx && renderer.config == config && renderer.output_dir@
                == ctx.destination@),
    {
        if !ctx.is_supported_version() {
            let mut text: Vec<char> = Vec::new();
            push_str(&mut text, "MDBook version ");
            push_str(&mut text, ctx.version.as_str());
            push_str(&mut text, " is not supported. Requires 0.4.21+");
            return Err(BuildError::ConfigError(string_of(&text)));
        }
        match config.validate() {
            Err(error) => Err(error),
            Ok(()) => {
                let output_dir = ctx.destination.clone();
                Ok(HtmxRenderer { ctx, config, output_dir })
            },
        }
    }

    /// Convert file path to URL path.
    pub fn path_to_url(&self, path: &str) -> (r: String)
        ensures
            r@ == path_url(path@),
    {
        path_to_url(path)
    }

    /// The directories that a pass writes into, below the output directory.
    pub fn output_directories(&self) -> (r: Vec<String>)
        ensures
            views(r@) == seq![
                join_path(self.output_dir@, "pages"@),
                join_path(self.output_dir@, "fragments"@),
                join_path(self.output_dir@, "assets"@),
                join_path(self.output_dir@, "oob"@),
            ],
    {
        let mut dirs: Vec<String> = Vec::new();
        dirs.push(string_of(&joined(self.output_dir.as_str(), "pages")));
        dirs.push(string_of(&joined(self.output_dir.as_str(), "fragments")));
        dirs.push(string_of(&joined(self.output_dir.as_str(), "assets")));
        dirs.push(string_of(&joined(self.output_dir.as_str(), "oob")));
        assert(views(dirs@) =~= seq![
            join_path(self.output_dir@, "pages"@),
            join_path(self.output_dir@, "fragments"@),
            join_path(self.output_dir@, "assets"@),
            join_path(self.output_dir@, "oob"@),
        ]);
        dirs
    }

    /// Where the full page of a rendered chapter is written.
    pub fn page_file(&self, rendered: &RenderedChapter) -> (r: String)
        ensures
            r@ == join_path(join_path(self.output_dir@, "pages"@), rendered.path@),
    {
        let dir = string_of(&joined(self.output_dir.as_str(), "pages"));
        string_of(&joined(dir.as_str(), rendered.path.as_str()))
    }

    /// Where the fragment of a rendered chapter is written; nowhere when the
    /// output mode asks for full pages only.
    pub fn fragment_file(&self, rendered: &RenderedChapter) -> (r: Option<String>)
        ensures
            opt_view(r) == if self.config.output_mode == OutputMode::Full {
                None
            } else {
                Some(join_path(join_path(self.output_dir@, "fragments"@), rendered.path@))
            },
    {
        match self.config.output_mode {
            OutputMode::Full => None,
            _ => {
                let dir = string_of(&joined(self.output_dir.as_str(), "fragments"));
                Some(string_of(&joined(dir.as_str(), rendered.path.as_str())))
            },
        }
    }

    /// Where the manifest is written: the file `manifest` with the extension
    /// `json`, in the output directory; nowhere when no index is to be
    /// generated.
    pub fn manifest_file(&self) -> (r: Option<String>)
        ensures
            opt_view(r) == if self.config.search.generate_index {
                Some(join_path(self.output_dir@, replace_extension("manifest"@, "json"@)))
            } else {
                None
            },
    {
        if self.config.search.generate_index {
            let name = string_of(&with_extension("manifest", "json"));
            Some(string_of(&joined(self.output_dir.as_str(), name.as_str())))
        } else {
            None
        }
    }

    /// Where the search index is written: the file `search-index.json` in the
    /// output directory; nowhere when search is off or no index is to be
    /// generated.
    pub fn search_index_file(&self) -> (r: Option<String>)
        ensures
            opt_view(r) == if self.config.search.enabled && self.config.search.generate_index {
                Some(join_path(self.output_dir@, "search-index.json"@))
            } else {
                None
            },
    {
        if self.config.search.enabled && self.config.search.generate_index {
            Some(string_of(&joined(self.output_dir.as_str(), "search-index.json")))
        } else {
            None
        }
    }

    /// The context in which the page and the fragment of a chapter are
    /// rendered.
    pub fn build_context(
        &self,
        chapter: &Chapter,
        prev: Option<&Chapter>,
        next: Option<&Chapter>,
        all_chapters: &[&Chapter],
        frontmatter: &Frontmatter,
        content: String,
    ) -> (r: TemplateContext)
        requires
            chapter.path is Some,
        ensures
            r@ == page_context(
                self.config,
                self.ctx.config.book,
                *chapter,
                referent(prev),
                referent(next),
                pointed(all_chapters@),
                *frontmatter,
                content@,
            ),
    {
        let path = chapter.path.as_ref().unwrap();
        let active = path_to_url(path.as_str());
        let mut scopes: Vec<String> = Vec::new();
        if let Some(scope) = &frontmatter.scope {
            scopes.push(scope.clone());
        }
        assert(views(scopes@) =~= page_scopes(*frontmatter));
        let page = PageData {
            title: match &frontmatter.title {
                Some(title) => title.clone(),
                None => chapter.name.clone(),
            },
            description: clone_opt(&frontmatter.description),
            content,
            path: active.clone(),
            source_path: clone_opt(&chapter.source_path),
            scopes,
            lazy: false,
        };
        let book = BookData {
            title: clone_opt(&self.ctx.config.book.title),
            description: clone_opt(&self.ctx.config.book.description),
            language: self.ctx.config.book.language.clone(),
        };
        let htmx = HtmxData {
            boost: self.config.boost,
            target: self.config.target.clone(),
            swap_strategy: self.config.swap_strategy.to_string(),
            push_url: self.config.push_url,
            breadcrumbs: self.config.navigation.breadcrumbs,
            toc: self.config.navigation.toc,
            prev_next: self.config.navigation.prev_next,
        };
        let sidebar = SidebarContext {
            items: build_nav_items(all_chapters, active.as_str()),
            active_path: active,
        };
        let mut context = TemplateContext::new();
        context.page = Some(page);
        context.book = Some(book);
        context.htmx = Some(htmx);
        context.prev_page = Self::link(prev);
        context.next_page = Self::link(next);
        context.sidebar = Some(sidebar);
        context
    }

    /// The link to a neighbouring chapter.
    fn link(neighbour: Option<&Chapter>) -> (r: Option<PageLink>)
        ensures
            some_view(r) == link_to(referent(neighbour)),
    {
        match neighbour {
            Some(chapter) => match &chapter.path {
                Some(path) => Some(
                    PageLink { title: chapter.name.clone(), path: path_to_url(path.as_str()) },
                ),
                None => None,
            },
            None => None,
        }
    }

    /// The error for a template that could not be rendered.
    fn template_error(template: &str, kind: &str, path: &str, detail: String) -> (r: Result<
        RenderedChapter,
        BuildError,
    >)
        ensures
            is_template_error(r, template@, kind@, path@, detail@),
    {
        let mut text: Vec<char> = Vec::new();
        push_str(&mut text, "Failed to render ");
        push_str(&mut text, kind);
        push_str(&mut text, " template for ");
        push_str(&mut text, path);
        push_str(&mut text, ": ");
        push_str(&mut text, detail.as_str());
        Err(BuildError::TemplateError { template: template.to_owned(), source: string_of(&text) })
    }

    /// Puts a rendered chapter together from what the renderer answered for
    /// the page and the fragment, and from the out-of-band updates.
    pub fn finish_chapter(
        page: Result<String, String>,
        fragment: Result<String, String>,
        oob: &OobUpdates,
        frontmatter: Frontmatter,
        path: &str,
    ) -> (r: Result<RenderedChapter, BuildError>)
        ensures
            chapter_result(r, page, Some(fragment), oob.html(), frontmatter, path@),
    {
        match page {
            Err(detail) => Self::template_error(PAGE_TEMPLATE, "page", path, detail),
            Ok(page_html) => match fragment {
                Err(detail) => Self::template_error(FRAGMENT_TEMPLATE, "fragment", path, detail),
                Ok(fragment_html) => {
                    let mut fragment = chars_of(fragment_html.as_str());
                    push_str(&mut fragment, oob.to_html().as_str());
                    Ok(
                        RenderedChapter {
                            page: page_html,
                            fragment: string_of(&fragment),
                            frontmatter,
                            path: string_of(&with_extension(path, "html")),
                        },
                    )
                },
            },
        }
    }

    /// `r` is what rendering the chapter comes to with the given metadata and
    /// content: the navigation fragments are rendered, then the page and the
    /// fragment, both in the one context of the page, and the navigation
    /// fragments are appended to the fragment.
    pub open spec fn rendered_with<R: Fn(&str, &TemplateContext) -> Result<String, String>>(
        &self,
        chapter: Chapter,
        prev: Option<Chapter>,
        next: Option<Chapter>,
        chapters: Seq<Chapter>,
        render: &R,
        frontmatter: Frontmatter,
        content: Seq<char>,
        r: Result<RenderedChapter, BuildError>,
    ) -> bool {
        exists|
            oob: OobUpdates,
            context: TemplateContext,
            page: Result<String, String>,
            fragment: Option<Result<String, String>>,
        |
            #![trigger
                oob_rendered(render, chapter, chapters, path_url(chapter.path->0@), oob),
                call_ensures(*render, (PAGE_TEMPLATE, &context), page),
                chapter_result(r, page, fragment, oob.html(), frontmatter, chapter.path->0@),
            ]
            {
                &&& oob_rendered(render, chapter, chapters, path_url(chapter.path->0@), oob)
                &&& context@ == page_context(
                    self.config,
                    self.ctx.config.book,
                    chapter,
                    prev,
                    next,
                    chapters,
                    frontmatter,
                    markdown_html(content, PAGE_EXTENSIONS),
                )
                &&& call_ensures(*render, (PAGE_TEMPLATE, &context), page)
                &&& page is Ok ==> (fragment matches Some(answer) && call_ensures(
                    *render,
                    (FRAGMENT_TEMPLATE, &context),
                    answer,
                ))
                &&& chapter_result(r, page, fragment, oob.html(), frontmatter, chapter.path->0@)
            }
    }

    /// `r` is what rendering the chapter comes to: its metadata block, where
    /// it has one, is decoded by `decode`, and a block that cannot be decoded
    /// is the error of the chapter; else the rest is rendered by `render`.
    pub open spec fn chapter_rendered<
        D: Fn(&str) -> Result<Frontmatter, String>,
        R: Fn(&str, &TemplateContext) -> Result<String, String>,
    >(
        &self,
        chapter: Chapter,
        prev: Option<Chapter>,
        next: Option<Chapter>,
        chapters: Seq<Chapter>,
        decode: &D,
        render: &R,
        r: Result<RenderedChapter, BuildError>,
    ) -> bool {
        match block_of(chapter.content@) {
            None => exists|frontmatter: Frontmatter|
                frontmatter.is_default() && #[trigger] self.rendered_with(
                    chapter,
                    prev,
                    next,
                    chapters,
                    render,
                    frontmatter,
                    chapter.content@,
                    r,
                ),
            Some((yaml, rest)) => exists|text: &str, decoded: Result<Frontmatter, String>|
                text@ == yaml && #[trigger] call_ensures(*decode, (text,), decoded) && match decoded {
                    Ok(frontmatter) => self.rendered_with(
                        chapter,
                        prev,
                        next,
                        chapters,
                        render,
                        frontmatter,
                        rest,
                        r,
                    ),
                    Err(detail) => r matches Err(
                        BuildError::InvalidFrontmatter { path, source },
                    ) && path@ == chapter.path->0@ && source@ == detail@,
                },
        }
    }

    /// Render a single chapter that has a path.
    pub fn render_chapter<
        D: Fn(&str) -> Result<Frontmatter, String>,
        R: Fn(&str, &TemplateContext) -> Result<String, String>,
    >(
        &self,
        chapter: &Chapter,
        prev: Option<&Chapter>,
        next: Option<&Chapter>,
        all_chapters: &[&Chapter],
        decode: &D,
        render: &R,
    ) -> (r: Result<RenderedChapter, BuildError>)
        requires
            chapter.path is Some,
            forall|yaml: &str| call_requires(*decode, (yaml,)),
            forall|name: &str, context: &TemplateContext| call_requires(*render, (name, context)),
        ensures
            self.chapter_rendered(
                *chapter,
                referent(prev),
                referent(next),
                pointed(all_chapters@),
                decode,
                render,
                r,
            ),
    {
        let path = chapter.path.as_ref().unwrap();
        let (frontmatter, content) = match parse_frontmatter(
            chapter.content.as_str(),
            path.as_str(),
            decode,
        ) {
            Ok(parsed) => parsed,
            Err(error) => {
                return Err(error);
            },
        };
        let html_content = markdown_to_html(content);
        let active_path = path_to_url(path.as_str());
        let oob = render_oob_updates(render, chapter, all_chapters, active_path.as_str());
        let context = self.build_context(
            chapter,
            prev,
            next,
            all_chapters,
            &frontmatter,
            html_content,
        );
        let page = render(PAGE_TEMPLATE, &context);
        let r = match page {
            Err(detail) => {
                let r = Self::template_error(PAGE_TEMPLATE, "page", path.as_str(), detail);
                assert(chapter_result(r, page, None, oob.html(), frontmatter, path@));
                r
            },
            Ok(page_html) => {
                let fragment = render(FRAGMENT_TEMPLATE, &context);
                let r = Self::finish_chapter(
                    Ok(page_html),
                    fragment,
                    &oob,
                    frontmatter,
                    path.as_str(),
                );
                assert(chapter_result(r, page, Some(fragment), oob.html(), frontmatter, path@));
                r
            },
        };
        assert(self.rendered_with(
            *chapter,
            referent(prev),
            referent(next),
            pointed(all_chapters@),
            render,
            frontmatter,
            content@,
            r,
        ));
        r
    }

    /// The manifest entry of a rendered chapter.
    pub fn page_entry(chapter: &Chapter, rendered: &RenderedChapter) -> (r: PageEntry)
        requires
            chapter.path is Some,
        ensures
            r@ == manifest_entry(*chapter, *rendered),
    {
        let path = chapter.path.as_ref().unwrap();
        PageEntry {
            title: match &rendered.frontmatter.title {
                Some(title) => title.clone(),
                None => chapter.name.clone(),
            },
            source: match &chapter.source_path {
                Some(source) => source.clone(),
                None => path.clone(),
            },
            page_path: string_of(&joined("pages", rendered.path.as_str())),
            fragment_path: string_of(&joined("fragments", rendered.path.as_str())),
            scope: clone_opt(&rendered.frontmatter.scope),
            authn: match &rendered.frontmatter.authn {
                Some(level) => Some(level.to_string()),
                None => None,
            },
            authz: clone_opt_list(&rendered.frontmatter.authz),
            fallback: clone_opt(&rendered.frontmatter.fallback),
            content_hash: compute_short_hash(rendered.page.as_str().as_bytes()),
        }
    }

    /// `pass` is what a render pass over the book comes to: the chapters with
    /// a path are rendered in document order, each between its neighbours in
    /// that order, until one fails; the manifest holds an entry for each
    /// rendered chapter under the chapter's URL, with its schema, its format
    /// version and the time of the pass, and the search index a document for
    /// each rendered chapter that is indexed.
    pub open spec fn pass_rendered<
        D: Fn(&str) -> Result<Frontmatter, String>,
        R: Fn(&str, &TemplateContext) -> Result<String, String>,
    >(&self, generated_at: Seq<char>, decode: &D, render: &R, pass: RenderPass) -> bool {
        let chapters = flatten(self.ctx.book.sections@);
        let places = published(chapters);
        let done = pass.chapters@;
        &&& done.len() <= places.len()
        &&& forall|k: int|
            0 <= k < done.len() ==> self.chapter_rendered(
                chapters[places[k]],
                neighbour(chapters, places[k] - 1),
                neighbour(chapters, places[k] + 1),
                chapters,
                decode,
                render,
                Ok(#[trigger] done[k]),
            )
        &&& match pass.failure {
            None => done.len() == places.len(),
            Some(error) => done.len() < places.len() && self.chapter_rendered(
                chapters[places[done.len() as int]],
                neighbour(chapters, places[done.len() as int] - 1),
                neighbour(chapters, places[done.len() as int] + 1),
                chapters,
                decode,
                render,
                Err(error),
            ),
        }
        &&& pass.manifest.wf()
        &&& pass.manifest.schema@ == manifest_schema()
        &&& pass.manifest.version@ == "1.0.0"@
        &&& pass.manifest.generated_at@ == generated_at
        &&& pass.manifest.by_url() == manifest_pages(chapters, done, done.len() as int)
        &&& pass.search_index@ == (IndexModel {
            documents: search_documents(self.config.search, chapters, done, done.len() as int),
            ..SearchIndex::initial(self.config.search)
        })
    }

    /// Render the book: every chapter that has a path, in document order.
    /// `generated_at` is the time of the pass, which the manifest records.
    ///
    /// The pass ends at the first chapter that fails; the chapters before it
    /// stay rendered.
    pub fn render<
        D: Fn(&str) -> Result<Frontmatter, String>,
        R: Fn(&str, &TemplateContext) -> Result<String, String>,
    >(&self, generated_at: String, decode: &D, render: &R) -> (r: RenderPass)
        requires
            forall|yaml: &str| call_requires(*decode, (yaml,)),
            forall|name: &str, context: &TemplateContext| call_requires(*render, (name, context)),
        ensures
            self.pass_rendered(generated_at@, decode, render, r),
    {
        let found = self.ctx.iter_chapters();
        let all = found.as_slice();
        let ghost chapters = flatten(self.ctx.book.sections@);
        let ghost places = published(chapters);
        assert(pointed(all@) == chapters);
        let ghost stamp = generated_at@;
        let mut manifest = Manifest::new(generated_at);
        let mut search_index = SearchIndex::new(&self.config.search);
        let builder = SearchDocumentBuilder::new(&self.config.search);
        let mut done: Vec<RenderedChapter> = Vec::new();
        let mut idx: usize = 0;
        proof {
            assert(chapters.take(0) == Seq::<Chapter>::empty());
        }
        while idx < all.len()
            invariant
                idx <= all.len(),
                all@ == found@,
                pointed(all@) == chapters,
                chapters == flatten(self.ctx.book.sections@),
                places == published(chapters),
                forall|yaml: &str| call_requires(*decode, (yaml,)),
                forall|name: &str, context: &TemplateContext|
                    call_requires(*render, (name, context)),
                done@.len() == published(chapters.take(idx as int)).len(),
                forall|k: int|
                    0 <= k < done@.len() ==> self.chapter_rendered(
                        chapters[places[k]],
                        neighbour(chapters, places[k] - 1),
                        neighbour(chapters, places[k] + 1),
                        chapters,
                        decode,
                        render,
                        Ok(#[trigger] done@[k]),
                    ),
                manifest.wf(),
                manifest.schema@ == manifest_schema(),
                manifest.version@ == "1.0.0"@,
                stamp == generated_at@,
                manifest.generated_at@ == stamp,
                manifest.by_url() == manifest_pages(chapters, done@, done@.len() as int),
                builder.config() == self.config.search,
                search_index@ == (IndexModel {
                    documents: search_documents(
                        self.config.search,
                        chapters,
                        done@,
                        done@.len() as int,
                    ),
                    ..SearchIndex::initial(self.config.search)
                }),
            decreases all.len() - idx,
        {
            let chapter = all[idx];
            proof {
                lemma_published(chapters, idx as int);
                lemma_published(chapters, idx + 1);
                assert(chapters.take(idx + 1).drop_last() == chapters.take(idx as int));
                assert(chapters.take(idx + 1).last() == *chapter);
            }
            if let Some(path) = &chapter.path {
                let prev = if idx > 0 {
                    Some(all[idx - 1])
                } else {
                    None
                };
                let next = if idx + 1 < all.len() {
                    Some(all[idx + 1])
                } else {
                    None
                };
                let ghost here = done@.len() as int;
                proof {
                    assert(published(chapters.take(idx + 1)) == published(
                        chapters.take(idx as int),
                    ).push(idx as int));
                    assert(places.take(here + 1)[here] == idx);
                    assert(places[here] == idx);
                    assert(referent(prev) == neighbour(chapters, idx - 1));
                    assert(referent(next) == neighbour(chapters, idx + 1));
                }
                match self.render_chapter(chapter, prev, next, all, decode, render) {
                    Ok(rendered) => {
                        let entry = Self::page_entry(chapter, &rendered);
                        manifest.add_page(path_to_url(path.as_str()), entry);
                        let text = match split_frontmatter(chapter.content.as_str()) {
                            Some(block) => block.content,
                            None => chapter.content.as_str(),
                        };
                        let title = match &rendered.frontmatter.title {
                            Some(title) => title.clone(),
                            None => chapter.name.clone(),
                        };
                        let document = builder.build(
                            path_to_url(path.as_str()),
                            title,
                            text,
                            &rendered.frontmatter,
                        );
                        assert(document_view(document) == search_document(
                            self.config.search,
                            *chapter,
                            rendered,
                        ));
                        if let Some(document) = document {
                            search_index.add_document(document);
                        }
                        let ghost before = done@;
                        done.push(rendered);
                        proof {
                            assert(before == done@.take(before.len() as int));
                            lemma_manifest_pages_prefix(chapters, before, done@, here);
                            lemma_search_documents_prefix(
                                self.config.search,
                                chapters,
                                before,
                                done@,
                                here,
                            );
                            assert(done@[here] == rendered);
                            assert forall|k: int| 0 <= k < done@.len() implies self.chapter_rendered(
                                chapters[places[k]],
                                neighbour(chapters, places[k] - 1),
                                neighbour(chapters, places[k] + 1),
                                chapters,
                                decode,
                                render,
                                Ok(#[trigger] done@[k]),
                            ) by {
                                if k < here {
                                    assert(done@[k] == before[k]);
                                }
                            }
                        }
                    },
                    Err(error) => {
                        proof {
                            assert(here < places.len());
                            assert(chapters[places[here]] == *chapter);
                            assert(self.chapter_rendered(
                                chapters[places[here]],
                                neighbour(chapters, places[here] - 1),
                                neighbour(chapters, places[here] + 1),
                                chapters,
                                decode,
                                render,
                                Err(error),
                            ));
                        }
                        return RenderPass {
                            chapters: done,
                            manifest,
                            search_index,
                            failure: Some(error),
                        };
                    },
                }
            }
            idx += 1;
        }
        proof {
            assert(chapters.take(all.len() as int) == chapters);
        }
        RenderPass { chapters: done, manifest, search_index, failure: None }
    }
}

} // verus!
