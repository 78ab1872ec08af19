//! Search index generation: one searchable document per page, and the
//! filters that cut an index down to what one audience may see.

use vstd::prelude::*;
use vstd::string::StringSliceAdditionalSpecFns;
use crate::config::SearchConfig;
use crate::frontmatter::{admits, lemma_admits_ends, level_admits, Frontmatter};
use crate::markdown::{
    markdown_events, parse_events, MdEvent, EXCERPT_EXTENSIONS, HEADING_ATTRIBUTES,
};
use crate::render::{lemma_outline_levels, outline, outline_of, slug, slugify};
use crate::text::{
    char_width, chars_of, clone_opt, clone_opt_list, join, join_words, last_index_of,
    lemma_last_index_of, lemma_utf8_len_add, lemma_utf8_len_encoded, opt_view, opt_views,
    push_str, rfind_char, slice,
    split_words, str_eq, string_of, utf8_len, views, words, Separator,
};

verus! {

/// The search index containing all searchable content.
#[derive(Debug)]
pub struct SearchIndex {
    /// Schema version URL
    pub schema: String,
    /// Index format version
    pub version: String,
    /// Index configuration (for client-side search reference)
    pub config: SearchIndexConfig,
    /// Indexed documents
    pub documents: Vec<SearchDocument>,
}

/// Search index configuration embedded in the index.
#[derive(Debug, Clone, Copy, PartialEq, Eq, Structural)]
pub struct SearchIndexConfig {
    /// Maximum heading level indexed
    pub heading_split_level: u8,
    /// Whether body content is included
    pub include_body: bool,
    /// Whether auth info is included
    pub include_auth: bool,
}

/// A searchable document entry.
#[derive(Debug)]
pub struct SearchDocument {
    /// Document path (URL path)
    pub path: String,
    /// Page title
    pub title: String,
    /// Plain text content for search
    pub body: Option<String>,
    /// Headings with anchors for deep linking
    pub headings: Vec<HeadingEntry>,
    /// Authentication/authorization metadata for filtering
    pub auth: Option<DocumentAuth>,
    /// Audience scope (for filtering)
    pub scope: Option<String>,
}

/// A heading entry for anchor linking.
#[derive(Debug)]
pub struct HeadingEntry {
    /// Heading level (1-6)
    pub level: u8,
    /// Heading text
    pub text: String,
    /// Anchor ID (e.g., "#installation")
    pub anchor: String,
}

/// Authentication/authorization metadata for a document.
#[derive(Debug)]
pub struct DocumentAuth {
    /// Required authentication level
    pub authn: Option<String>,
    /// Required roles for access
    pub authz: Option<Vec<String>>,
}

/// What a [`HeadingEntry`] holds.
pub struct HeadingModel {
    pub level: u8,
    pub text: Seq<char>,
    pub anchor: Seq<char>,
}

/// What a [`DocumentAuth`] holds.
pub struct AuthModel {
    pub authn: Option<Seq<char>>,
    pub authz: Option<Seq<Seq<char>>>,
}

/// What a [`SearchDocument`] holds.
pub struct DocumentModel {
    pub path: Seq<char>,
    pub title: Seq<char>,
    pub body: Option<Seq<char>>,
    pub headings: Seq<HeadingModel>,
    pub auth: Option<AuthModel>,
    pub scope: Option<Seq<char>>,
}

/// What a [`SearchIndex`] holds.
pub struct IndexModel {
    pub schema: Seq<char>,
    pub version: Seq<char>,
    pub config: SearchIndexConfig,
    pub documents: Seq<DocumentModel>,
}

impl View for HeadingEntry {
    type V = HeadingModel;

    open spec fn view(&self) -> HeadingModel {
        HeadingModel { level: self.level, text: self.text@, anchor: self.anchor@ }
    }
}

impl View for DocumentAuth {
    type V = AuthModel;

    open spec fn view(&self) -> AuthModel {
        AuthModel { authn: opt_view(self.authn), authz: opt_views(self.authz) }
    }
}

impl View for SearchDocument {
    type V = DocumentModel;

    open spec fn view(&self) -> DocumentModel {
        DocumentModel {
            path: self.path@,
            title: self.title@,
            body: opt_view(self.body),
            headings: views(self.headings@),
            auth: match self.auth {
                Some(auth) => Some(auth@),
                None => None,
            },
            scope: opt_view(self.scope),
        }
    }
}

impl View for SearchIndex {
    type V = IndexModel;

    open spec fn view(&self) -> IndexModel {
        IndexModel {
            schema: self.schema@,
            version: self.version@,
            config: self.config,
            documents: views(self.documents@),
        }
    }
}

impl Clone for HeadingEntry {
    fn clone(&self) -> (r: Self)
        ensures
            r@ == self@,
    {
        HeadingEntry { level: self.level, text: self.text.clone(), anchor: self.anchor.clone() }
    }
}

impl Clone for DocumentAuth {
    fn clone(&self) -> (r: Self)
        ensures
            r@ == self@,
    {
        DocumentAuth { authn: clone_opt(&self.authn), authz: clone_opt_list(&self.authz) }
    }
}

impl Clone for SearchDocument {
    fn clone(&self) -> (r: Self)
        ensures
            r@ == self@,
    {
        let mut headings: Vec<HeadingEntry> = Vec::new();
        let mut i: usize = 0;
        while i < self.headings.len()
            invariant
                i <= self.headings.len(),
                headings@.len() == i,
                views(headings@) == views(self.headings@).take(i as int),
            decreases self.headings.len() - i,
        {
            let ghost before = views(headings@);
            let copy = self.headings[i].clone();
            headings.push(copy);
            assert(views(headings@) == before.push(copy@));
            assert(views(self.headings@).take(i + 1) == views(self.headings@).take(i as int).push(
                self.headings@[i as int]@,
            ));
            i += 1;
        }
        assert(views(self.headings@).take(self.headings.len() as int) == views(self.headings@));
        SearchDocument {
            path: self.path.clone(),
            title: self.title.clone(),
            body: clone_opt(&self.body),
            headings,
            auth: match &self.auth {
                Some(auth) => Some(auth.clone()),
                None => None,
            },
            scope: clone_opt(&self.scope),
        }
    }
}

impl Clone for SearchIndex {
    fn clone(&self) -> (r: Self)
        ensures
            r@ == self@,
    {
        let mut documents: Vec<SearchDocument> = Vec::new();
        let mut i: usize = 0;
        while i < self.documents.len()
            invariant
                i <= self.documents.len(),
                documents@.len() == i,
                views(documents@) == views(self.documents@).take(i as int),
            decreases self.documents.len() - i,
        {
            let ghost before = views(documents@);
            let copy = self.documents[i].clone();
            documents.push(copy);
            assert(views(documents@) == before.push(copy@));
            assert(views(self.documents@).take(i + 1) == views(self.documents@).take(
                i as int,
            ).push(self.documents@[i as int]@));
            i += 1;
        }
        assert(views(self.documents@).take(self.documents.len() as int) == views(
            self.documents@,
        ));
        SearchIndex {
            schema: self.schema.clone(),
            version: self.version.clone(),
            config: self.config,
            documents,
        }
    }
}

/// The documents that the audience `scope` may find: those without a scope
/// and those scoped exactly `scope`.
pub open spec fn in_scope(scope: Seq<char>) -> spec_fn(DocumentModel) -> bool {
    |doc: DocumentModel| doc.scope is None || doc.scope == Some(scope)
}

/// The documents that a reader at `level` may find: those that record no
/// required level and those whose required level the reader's level admits.
pub open spec fn visible_at(level: Seq<char>) -> spec_fn(DocumentModel) -> bool {
    |doc: DocumentModel|
        match doc.auth {
            Some(auth) => match auth.authn {
                Some(required) => admits(level, required),
                None => true,
            },
            None => true,
        }
}

/// What a filter keeps of an index.
enum Keep<'a> {
    /// The documents of an audience
    Scope(&'a str),
    /// The documents that a reader at a level may find
    Level(&'a str),
}

impl Keep<'_> {
    spec fn keeps(self) -> spec_fn(DocumentModel) -> bool {
        match self {
            Keep::Scope(scope) => in_scope(scope@),
            Keep::Level(level) => visible_at(level@),
        }
    }

    fn is_kept(&self, doc: &SearchDocument) -> (r: bool)
        ensures
            r == self.keeps()(doc@),
    {
        match self {
            Keep::Scope(scope) => match &doc.scope {
                Some(s) => str_eq(s.as_str(), scope),
                None => true,
            },
            Keep::Level(level) => match &doc.auth {
                Some(auth) => match &auth.authn {
                    Some(required) => level_admits(level, required.as_str()),
                    None => true,
                },
                None => true,
            },
        }
    }
}

/// The address of the schema that a search index follows.
pub open spec fn index_schema() -> Seq<char> {
    "https://schemas.arusty.dev/mdbook-htmx/search-index.schema.json"@
}

impl SearchIndex {
    /// What a new index holds under a configuration: the schema, the format
    /// version, the settings that the index embeds, and no document.
    pub open spec fn initial(config: SearchConfig) -> IndexModel {
        IndexModel {
            schema: index_schema(),
            version: "1.0.0"@,
            config: SearchIndexConfig {
                heading_split_level: config.heading_split_level,
                include_body: config.index_content,
                include_auth: config.include_auth,
            },
            documents: Seq::empty(),
        }
    }

    /// Create a new empty search index with the given configuration.
    pub fn new(config: &SearchConfig) -> (r: Self)
        ensures
            r@ == Self::initial(*config),
    {
        let documents: Vec<SearchDocument> = Vec::new();
        assert(views(documents@) == Seq::<DocumentModel>::empty());
        SearchIndex {
            schema: "https://schemas.arusty.dev/mdbook-htmx/search-index.schema.json".to_owned(),
            version: "1.0.0".to_owned(),
            config: SearchIndexConfig {
                heading_split_level: config.heading_split_level,
                include_body: config.index_content,
                include_auth: config.include_auth,
            },
            documents,
        }
    }

    /// Add a document to the index, after those it holds.
    pub fn add_document(&mut self, doc: SearchDocument)
        ensures
            final(self)@ == (IndexModel {
                documents: old(self)@.documents.push(doc@),
                ..old(self)@
            }),
    {
        self.documents.push(doc);
        assert(views(self.documents@) == views(old(self).documents@).push(doc@));
    }

    /// The documents of this index that `keep` keeps, in a new index with the
    /// same schema, version and configuration.
    fn filtered(&self, keep: Keep<'_>) -> (r: Self)
        ensures
            r@ == (IndexModel { documents: self@.documents.filter(keep.keeps()), ..self@ }),
    {
        let mut documents: Vec<SearchDocument> = Vec::new();
        let mut i: usize = 0;
        proof {
            reveal(Seq::filter);
            assert(views(self.documents@).take(0).filter(keep.keeps()) == Seq::<
                DocumentModel,
            >::empty());
        }
        while i < self.documents.len()
            invariant
                i <= self.documents.len(),
                views(documents@) == views(self.documents@).take(i as int).filter(keep.keeps()),
            decreases self.documents.len() - i,
        {
            let doc = &self.documents[i];
            proof {
                reveal(Seq::filter);
                assert(views(self.documents@).take(i + 1).drop_last() == views(
                    self.documents@,
                ).take(i as int));
                assert(views(self.documents@).take(i + 1).last() == doc@);
            }
            if keep.is_kept(doc) {
                let ghost before = views(documents@);
                let copy = doc.clone();
                documents.push(copy);
                assert(views(documents@) == before.push(copy@));
            }
            i += 1;
        }
        assert(views(self.documents@).take(self.documents.len() as int) == views(
            self.documents@,
        ));
        SearchIndex {
            schema: self.schema.clone(),
            version: self.version.clone(),
            config: self.config,
            documents,
        }
    }

    /// Filter index by scope.
    ///
    /// Returns a new index that holds, in their order, the documents without
    /// a scope and the documents scoped exactly `scope`.
    pub fn filter_by_scope(&self, scope: &str) -> (r: Self)
        ensures
            r@ == (IndexModel { documents: self@.documents.filter(in_scope(scope@)), ..self@ }),
    {
        self.filtered(Keep::Scope(scope))
    }

    /// Filter index by authentication level.
    ///
    /// Returns a new index that holds, in their order, the documents that a
    /// reader at `level` may find.
    pub fn filter_by_auth(&self, level: &str) -> (r: Self)
        ensures
            r@ == (IndexModel { documents: self@.documents.filter(visible_at(level@)), ..self@ }),
    {
        self.filtered(Keep::Level(level))
    }
}

/// A reader at `verified` finds every document, whatever level it requires.
pub proof fn lemma_verified_finds_all(documents: Seq<DocumentModel>)
    ensures
        documents.filter(visible_at("verified"@)) == documents,
    decreases documents.len(),
{
    reveal(Seq::filter);
    if documents.len() > 0 {
        lemma_verified_finds_all(documents.drop_last());
        assert(visible_at("verified"@)(documents.last())) by {
            if let Some(auth) = documents.last().auth {
                if let Some(required) = auth.authn {
                    lemma_admits_ends("verified"@, required);
                }
            }
        }
        assert(documents.drop_last().push(documents.last()) == documents);
    }
}

/// Filtering by scope keeps a document exactly when it has no scope or the
/// requested one, and changes nothing else: what is found is a document of
/// the index, and every such document of the index is found.
pub proof fn lemma_scope_filter(documents: Seq<DocumentModel>, scope: Seq<char>)
    ensures
        forall|doc: DocumentModel|
            documents.filter(in_scope(scope)).contains(doc) <==> documents.contains(doc) && (
            doc.scope is None || doc.scope == Some(scope)),
{
    let found = documents.filter(in_scope(scope));
    assert forall|doc: DocumentModel| found.contains(doc) <==> documents.contains(doc) && (
    doc.scope is None || doc.scope == Some(scope)) by {
        if found.contains(doc) {
            documents.lemma_filter_contains_rev(in_scope(scope), doc);
        }
        if documents.contains(doc) && in_scope(scope)(doc) {
            let i = choose|i: int| 0 <= i < documents.len() && documents[i] == doc;
            documents.lemma_filter_contains(in_scope(scope), i);
        }
    }
}

impl Default for SearchIndex {
    fn default() -> (r: Self)
        ensures
            r@ == (IndexModel {
                schema: index_schema(),
                version: "1.0.0"@,
                config: SearchIndexConfig {
                    heading_split_level: 3,
                    include_body: true,
                    include_auth: true,
                },
                documents: Seq::empty(),
            }),
    {
        SearchIndex::new(&SearchConfig::default())
    }
}

/// The headings of `found` whose level is at most `limit`, in order.
pub open spec fn up_to_level(found: Seq<(u8, Seq<char>)>, limit: u8) -> Seq<(u8, Seq<char>)> {
    found.filter(|heading: (u8, Seq<char>)| heading.0 <= limit)
}

/// Each heading as an index entry: its anchor is `#` and the slug of its text.
pub open spec fn entries(found: Seq<(u8, Seq<char>)>) -> Seq<HeadingModel> {
    Seq::new(
        found.len(),
        |i: int|
            HeadingModel {
                level: found[i].0,
                text: found[i].1,
                anchor: seq!['#'] + slug(found[i].1),
            },
    )
}

/// The index entries for the headings of a document down to level `limit`.
pub open spec fn indexed_headings(events: Seq<MdEvent>, limit: u8) -> Seq<HeadingModel> {
    entries(up_to_level(outline(events), limit))
}

/// Where every heading of the outline has a level from 1 to 6, so has every
/// indexed heading.
pub proof fn lemma_indexed_levels(events: Seq<MdEvent>, limit: u8)
    requires
        forall|k: int|
            0 <= k < outline(events).len() ==> 1 <= (#[trigger] outline(events)[k]).0 <= 6,
    ensures
        forall|i: int|
            0 <= i < indexed_headings(events, limit).len() ==> 1 <= (#[trigger] indexed_headings(
                events,
                limit,
            )[i]).level <= 6,
{
    let found = outline(events);
    let keep = |heading: (u8, Seq<char>)| heading.0 <= limit;
    assert forall|i: int| 0 <= i < indexed_headings(events, limit).len() implies 1 <= (
    #[trigger] indexed_headings(events, limit)[i]).level <= 6 by {
        let kept = found.filter(keep)[i];
        assert(found.filter(keep).contains(kept));
        found.lemma_filter_contains_rev(keep, kept);
        let k = choose|k: int| 0 <= k < found.len() && found[k] == kept;
        assert(1 <= outline(events)[k].0 <= 6);
        assert(indexed_headings(events, limit)[i].level == kept.0);
    }
}

/// No indexed heading lies deeper than the limit.
pub proof fn lemma_indexed_headings_within(events: Seq<MdEvent>, limit: u8)
    ensures
        forall|i: int|
            0 <= i < indexed_headings(events, limit).len() ==> (#[trigger] indexed_headings(
                events,
                limit,
            )[i]).level <= limit,
{
    let found = outline(events);
    let keep = |heading: (u8, Seq<char>)| heading.0 <= limit;
    assert forall|i: int| 0 <= i < indexed_headings(events, limit).len() implies (
    #[trigger] indexed_headings(events, limit)[i]).level <= limit by {
        found.lemma_filter_pred(keep, i);
    }
}

/// What a pass over the events of a document has gathered of its prose.
pub struct TextScan {
    /// How many code blocks and images are open
    pub depth: int,
    /// The text gathered so far
    pub out: Seq<char>,
}

/// The scan after one more event. Code blocks and images are skipped with all
/// that stands in them, inline code is dropped; text outside of them is kept
/// with a space after it, a line break becomes a space, and the end of a
/// paragraph or a heading a line feed.
pub open spec fn text_step(scan: TextScan, event: MdEvent) -> TextScan {
    match event {
        MdEvent::CodeBlockStart => TextScan { depth: scan.depth + 1, out: scan.out },
        MdEvent::CodeBlockEnd => TextScan { depth: scan.depth - 1, out: scan.out },
        MdEvent::ImageStart => TextScan { depth: scan.depth + 1, out: scan.out },
        MdEvent::ImageEnd => TextScan { depth: scan.depth - 1, out: scan.out },
        MdEvent::Text(text) => if scan.depth == 0 {
            TextScan { depth: scan.depth, out: (scan.out + text@).push(' ') }
        } else {
            scan
        },
        MdEvent::SoftBreak => if scan.depth == 0 {
            TextScan { depth: scan.depth, out: scan.out.push(' ') }
        } else {
            scan
        },
        MdEvent::HardBreak => if scan.depth == 0 {
            TextScan { depth: scan.depth, out: scan.out.push(' ') }
        } else {
            scan
        },
        MdEvent::ParagraphEnd => if scan.depth == 0 {
            TextScan { depth: scan.depth, out: scan.out.push('\n') }
        } else {
            scan
        },
        MdEvent::HeadingEnd => if scan.depth == 0 {
            TextScan { depth: scan.depth, out: scan.out.push('\n') }
        } else {
            scan
        },
        _ => scan,
    }
}

/// The scan after all of `events`.
pub open spec fn text_scan(events: Seq<MdEvent>) -> TextScan
    decreases events.len(),
{
    if events.len() == 0 {
        TextScan { depth: 0, out: Seq::empty() }
    } else {
        text_step(text_scan(events.drop_last()), events.last())
    }
}

/// The prose of a document on one line: the gathered text with every run of
/// whitespace turned into one space, and none at either end.
pub open spec fn plain_text(events: Seq<MdEvent>) -> Seq<char> {
    join(words(text_scan(events).out, Separator::Whitespace), ' ')
}

proof fn lemma_depth_bounds(events: Seq<MdEvent>)
    ensures
        -events.len() <= text_scan(events).depth <= events.len(),
    decreases events.len(),
{
    if events.len() > 0 {
        lemma_depth_bounds(events.drop_last());
    }
}

/// The prose that `events` hold, on one line.
pub fn text_of_events(events: &Vec<MdEvent>) -> (r: String)
    ensures
        r@ == plain_text(events@),
{
    let mut out: Vec<char> = Vec::new();
    let mut depth: i128 = 0;
    let mut i: usize = 0;
    while i < events.len()
        invariant
            i <= events.len(),
            depth == text_scan(events@.take(i as int)).depth,
            out@ == text_scan(events@.take(i as int)).out,
        decreases events.len() - i,
    {
        proof {
            assert(events@.take(i + 1).drop_last() == events@.take(i as int));
            lemma_depth_bounds(events@.take(i as int));
        }
        match &events[i] {
            MdEvent::CodeBlockStart => {
                depth = depth + 1;
            },
            MdEvent::CodeBlockEnd => {
                depth = depth - 1;
            },
            MdEvent::ImageStart => {
                depth = depth + 1;
            },
            MdEvent::ImageEnd => {
                depth = depth - 1;
            },
            MdEvent::Text(text) => {
                if depth == 0 {
                    push_str(&mut out, text.as_str());
                    out.push(' ');
                }
            },
            MdEvent::SoftBreak => {
                if depth == 0 {
                    out.push(' ');
                }
            },
            MdEvent::HardBreak => {
                if depth == 0 {
                    out.push(' ');
                }
            },
            MdEvent::ParagraphEnd => {
                if depth == 0 {
                    out.push('\n');
                }
            },
            MdEvent::HeadingEnd => {
                if depth == 0 {
                    out.push('\n');
                }
            },
            _ => {},
        }
        i += 1;
    }
    assert(events@.take(events.len() as int) == events@);
    let parts = split_words(&out, Separator::Whitespace);
    let joined = join_words(&parts, ' ');
    string_of(&joined)
}

/// Strip markdown syntax to get plain text: code blocks, inline code and
/// images go, link text stays, and all whitespace collapses to single spaces.
pub fn strip_markdown(markdown: &str) -> (r: String)
    ensures
        r@ == plain_text(markdown_events(markdown@, EXCERPT_EXTENSIONS)),
{
    let events = parse_events(markdown, EXCERPT_EXTENSIONS);
    text_of_events(&events)
}

/// How many characters the longest prefix of `text` has whose UTF-8 encoding
/// takes at most `max` bytes.
pub open spec fn prefix_within(text: Seq<char>, max: nat) -> nat
    decreases text.len(),
{
    if text.len() == 0 || utf8_len(text) <= max {
        text.len()
    } else {
        prefix_within(text.drop_last(), max)
    }
}

/// `text` cut to at most `max` bytes of UTF-8, which is the length that
/// `str::len` counts. A text
/// that fits stays as it is. A longer one is cut after its longest prefix that fits, then back to
/// before the last space of that prefix where there is one, and `...` is
/// appended.
pub open spec fn truncated(text: Seq<char>, max: nat) -> Seq<char> {
    if utf8_len(text) <= max {
        text
    } else {
        let cut = text.take(prefix_within(text, max) as int);
        match last_index_of(cut, ' ') {
            Some(at) => cut.take(at) + "..."@,
            None => cut + "..."@,
        }
    }
}

proof fn lemma_utf8_len_grows(text: Seq<char>, i: int, j: int)
    requires
        0 <= i <= j <= text.len(),
    ensures
        utf8_len(text.take(i)) <= utf8_len(text.take(j)),
    decreases j - i,
{
    if i < j {
        lemma_utf8_len_grows(text, i, j - 1);
        assert(text.take(j).drop_last() == text.take(j - 1));
    }
}

proof fn lemma_prefix_within(text: Seq<char>, max: nat, i: int)
    requires
        0 <= i < text.len(),
        utf8_len(text.take(i)) <= max < utf8_len(text.take(i + 1)),
    ensures
        prefix_within(text, max) == i,
    decreases text.len(),
{
    lemma_utf8_len_grows(text, i + 1, text.len() as int);
    assert(text.take(text.len() as int) == text);
    assert(utf8_len(text) > max);
    let shorter = text.drop_last();
    assert(prefix_within(text, max) == prefix_within(shorter, max));
    if i + 1 < text.len() {
        assert(shorter.take(i) == text.take(i));
        assert(shorter.take(i + 1) == text.take(i + 1));
        lemma_prefix_within(shorter, max, i);
    } else {
        assert(shorter == text.take(i));
        assert(utf8_len(shorter) <= max);
        assert(prefix_within(shorter, max) == shorter.len());
    }
}

proof fn lemma_prefix_fits(text: Seq<char>, max: nat)
    ensures
        prefix_within(text, max) <= text.len(),
        utf8_len(text.take(prefix_within(text, max) as int)) <= max,
    decreases text.len(),
{
    if text.len() == 0 || utf8_len(text) <= max {
        assert(text.take(text.len() as int) == text);
    } else {
        lemma_prefix_fits(text.drop_last(), max);
        assert(text.drop_last().take(prefix_within(text, max) as int) == text.take(
            prefix_within(text, max) as int,
        ));
    }
}

/// A text that does not fit comes back ending in `...` and at most three
/// bytes longer than the limit; a text that fits comes back as it is.
pub proof fn lemma_truncated(text: Seq<char>, max: nat)
    ensures
        utf8_len(text) <= max ==> truncated(text, max) == text,
        utf8_len(text) > max ==> "..."@.is_suffix_of(truncated(text, max)) && utf8_len(
            truncated(text, max),
        ) <= max + 3,
{
    if utf8_len(text) > max {
        reveal_strlit("...");
        let dots = "..."@;
        assert(utf8_len(dots) == 3) by {
            assert(dots.drop_last().drop_last().drop_last() == Seq::<char>::empty());
            assert(utf8_len(dots.drop_last().drop_last().drop_last()) == 0);
            assert(utf8_len(dots.drop_last().drop_last()) == 1);
            assert(utf8_len(dots.drop_last()) == 2);
        }
        lemma_prefix_fits(text, max);
        let cut = text.take(prefix_within(text, max) as int);
        lemma_last_index_of(cut, ' ');
        let kept = match last_index_of(cut, ' ') {
            Some(at) => cut.take(at),
            None => cut,
        };
        assert(utf8_len(kept) <= utf8_len(cut)) by {
            if let Some(at) = last_index_of(cut, ' ') {
                lemma_utf8_len_grows(cut, at, cut.len() as int);
                assert(cut.take(cut.len() as int) == cut);
            }
        }
        lemma_utf8_len_add(kept, dots);
        assert(truncated(text, max) == kept + dots);
        assert((kept + dots).skip((kept + dots).len() - dots.len()) == dots);
    }
}

/// Truncate text to a maximum length in bytes, breaking at word boundaries.
pub fn truncate_text(text: &str, max_len: usize) -> (r: String)
    ensures
        r@ == truncated(text@, max_len as nat),
        text.spec_bytes().len() <= max_len ==> r@ == text@,
{
    proof {
        lemma_utf8_len_encoded(text@);
    }
    let chars = chars_of(text);
    let mut used: usize = 0;
    let mut i: usize = 0;
    while i < chars.len() && char_width(chars[i]) <= max_len - used
        invariant
            i <= chars.len(),
            used == utf8_len(chars@.take(i as int)),
            used <= max_len,
        decreases chars.len() - i,
    {
        assert(chars@.take(i + 1).drop_last() == chars@.take(i as int));
        used = used + char_width(chars[i]);
        i += 1;
    }
    if i == chars.len() {
        assert(chars@.take(i as int) == chars@);
        return text.to_owned();
    }
    proof {
        assert(chars@.take(i + 1).drop_last() == chars@.take(i as int));
        lemma_prefix_within(chars@, max_len as nat, i as int);
        lemma_utf8_len_grows(chars@, i + 1, chars@.len() as int);
        assert(chars@.take(chars@.len() as int) == chars@);
    }
    let end = match rfind_char(&chars, i, ' ') {
        Some(at) => at,
        None => i,
    };
    let mut cut = slice(&chars, 0, end);
    proof {
        assert(chars@.subrange(0, end as int) == chars@.take(end as int));
        assert(chars@.take(i as int).take(end as int) == chars@.take(end as int));
    }
    push_str(&mut cut, "...");
    string_of(&cut)
}

/// Builder for creating search documents from chapter content.
pub struct SearchDocumentBuilder<'a> {
    config: &'a SearchConfig,
}

/// The excerpt of a page's prose that the index keeps: nothing where bodies
/// are not indexed, else the plain text, cut to the maximal length where the
/// configuration sets one.
pub open spec fn body_of(config: SearchConfig, text: Seq<MdEvent>) -> Option<Seq<char>> {
    if config.index_content {
        match config.max_excerpt_length {
            Some(max) => Some(truncated(plain_text(text), max as nat)),
            None => Some(plain_text(text)),
        }
    } else {
        None
    }
}

/// The access requirements that the index records for a page: those that the
/// page declares, where the index includes them and the page declares any.
pub open spec fn auth_of(config: SearchConfig, frontmatter: Frontmatter) -> Option<AuthModel> {
    if config.include_auth && (frontmatter.authn is Some || frontmatter.authz is Some) {
        Some(
            AuthModel {
                authn: match frontmatter.authn {
                    Some(level) => Some(level.name()),
                    None => None,
                },
                authz: opt_views(frontmatter.authz),
            },
        )
    } else {
        None
    }
}

/// The document that stands in the index for a page, if the page is indexed
/// at all: `headings` are the events read for its outline, `text` those read
/// for its excerpt.
pub open spec fn document_of(
    config: SearchConfig,
    path: Seq<char>,
    title: Seq<char>,
    headings: Seq<MdEvent>,
    text: Seq<MdEvent>,
    frontmatter: Frontmatter,
) -> Option<DocumentModel> {
    if frontmatter.no_search {
        None
    } else {
        Some(
            DocumentModel {
                path,
                title,
                body: body_of(config, text),
                headings: indexed_headings(headings, config.heading_split_level),
                auth: auth_of(config, frontmatter),
                scope: opt_view(frontmatter.scope),
            },
        )
    }
}

/// The document, or its absence, as plain values.
pub open spec fn document_view(doc: Option<SearchDocument>) -> Option<DocumentModel> {
    match doc {
        Some(d) => Some(d@),
        None => None,
    }
}

impl<'a> SearchDocumentBuilder<'a> {
    /// The configuration that the builder follows.
    pub closed spec fn config(&self) -> SearchConfig {
        *self.config
    }

    /// Create a new document builder with the given configuration.
    pub fn new(config: &'a SearchConfig) -> (r: Self)
        ensures
            r.config() == *config,
    {
        SearchDocumentBuilder { config }
    }

    /// Build a search document from chapter content.
    ///
    /// Returns a `SearchDocument` if the page should be indexed, `None` if
    /// the page's metadata sets `no_search`.
    pub fn build(
        &self,
        path: String,
        title: String,
        content: &str,
        frontmatter: &Frontmatter,
    ) -> (r: Option<SearchDocument>)
        ensures
            document_view(r) == document_of(
                self.config(),
                path@,
                title@,
                markdown_events(content@, HEADING_ATTRIBUTES),
                markdown_events(content@, EXCERPT_EXTENSIONS),
                *frontmatter,
            ),
    {
        let headings = parse_events(content, HEADING_ATTRIBUTES);
        let text = parse_events(content, EXCERPT_EXTENSIONS);
        self.build_from_events(path, title, &headings, &text, frontmatter)
    }

    /// Build a search document from the events of a chapter's content:
    /// `headings` are read for the outline, `text` for the excerpt.
    pub fn build_from_events(
        &self,
        path: String,
        title: String,
        headings: &Vec<MdEvent>,
        text: &Vec<MdEvent>,
        frontmatter: &Frontmatter,
    ) -> (r: Option<SearchDocument>)
        ensures
            document_view(r) == document_of(
                self.config(),
                path@,
                title@,
                headings@,
                text@,
                *frontmatter,
            ),
    {
        if frontmatter.no_search {
            return None;
        }
        let entries = self.headings_from_events(headings);
        let body = if self.config.index_content {
            let plain = text_of_events(text);
            match self.config.max_excerpt_length {
                Some(max_len) => Some(truncate_text(plain.as_str(), max_len)),
                None => Some(plain),
            }
        } else {
            None
        };
        let auth = if self.config.include_auth && (frontmatter.authn.is_some()
            || frontmatter.authz.is_some()) {
            Some(
                DocumentAuth {
                    authn: match &frontmatter.authn {
                        Some(level) => Some(level.to_string()),
                        None => None,
                    },
                    authz: clone_opt_list(&frontmatter.authz),
                },
            )
        } else {
            None
        };
        Some(
            SearchDocument {
                path,
                title,
                body,
                headings: entries,
                auth,
                scope: clone_opt(&frontmatter.scope),
            },
        )
    }

    /// The index entries for the headings that `events` hold, down to the
    /// configured level.
    pub fn headings_from_events(&self, events: &Vec<MdEvent>) -> (r: Vec<HeadingEntry>)
        ensures
            views(r@) == indexed_headings(events@, self.config().heading_split_level),
    {
        let found = outline_of(events);
        let limit = self.config.heading_split_level;
        let ghost keep = |heading: (u8, Seq<char>)| heading.0 <= limit;
        let mut r: Vec<HeadingEntry> = Vec::new();
        let mut i: usize = 0;
        proof {
            reveal(Seq::filter);
            assert(views(found@).take(0).filter(keep) == Seq::<(u8, Seq<char>)>::empty());
        }
        while i < found.len()
            invariant
                i <= found.len(),
                limit == self.config().heading_split_level,
                keep == |heading: (u8, Seq<char>)| heading.0 <= limit,
                views(r@) == entries(views(found@).take(i as int).filter(keep)),
            decreases found.len() - i,
        {
            proof {
                reveal(Seq::filter);
                assert(views(found@).take(i + 1).drop_last() == views(found@).take(i as int));
            }
            if found[i].0 <= limit {
                let text = string_of(&found[i].1);
                let mut anchor: Vec<char> = Vec::new();
                anchor.push('#');
                push_str(&mut anchor, slugify(text.as_str()).as_str());
                let entry = HeadingEntry { level: found[i].0, text, anchor: string_of(&anchor) };
                let ghost before = views(r@);
                r.push(entry);
                assert(views(r@) == before.push(entry@));
                assert(views(r@) == entries(views(found@).take(i + 1).filter(keep)));
            }
            i += 1;
        }
        assert(views(found@).take(found.len() as int) == views(found@));
        r
    }

    /// Extract headings from markdown up to the configured level.
    pub fn extract_headings(&self, markdown: &str) -> (r: Vec<HeadingEntry>)
        ensures
            views(r@) == indexed_headings(
                markdown_events(markdown@, HEADING_ATTRIBUTES),
                self.config().heading_split_level,
            ),
            forall|i: int|
                0 <= i < r@.len() ==> 1 <= (#[trigger] r@[i]).level <= 6 && r@[i].level
                    <= self.config().heading_split_level,
    {
        let events = parse_events(markdown, HEADING_ATTRIBUTES);
        let r = self.headings_from_events(&events);
        proof {
            let limit = self.config().heading_split_level;
            lemma_outline_levels(events@);
            lemma_indexed_headings_within(events@, limit);
            lemma_indexed_levels(events@, limit);
            assert(views(r@).len() == r@.len());
            assert forall|i: int| 0 <= i < r@.len() implies 1 <= (#[trigger] r@[i]).level <= 6
                && r@[i].level <= limit by {
                assert(views(r@)[i] == r@[i]@);
                assert(indexed_headings(events@, limit)[i].level == r@[i].level);
            }
        }
        r
    }
}

} // verus!
