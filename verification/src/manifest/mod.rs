//! The page manifest: one record per rendered page, keyed by the page's URL.

use vstd::prelude::*;
use crate::text::{opt_view, opt_views, str_eq};

verus! {

/// The manifest containing all page metadata.
#[derive(Debug)]
pub struct Manifest {
    /// Schema version for compatibility checking
    pub schema: String,
    /// Manifest format version
    pub version: String,
    /// Build timestamp (ISO 8601), as the caller read it off the clock
    pub generated_at: String,
    /// The page entries with their URL paths, each URL once, in the order
    /// in which the URLs were first added
    pub pages: Vec<(String, PageEntry)>,
}

/// Metadata for a single page.
#[derive(Debug)]
pub struct PageEntry {
    /// Page title
    pub title: String,
    /// Source file path relative to the source directory
    pub source: String,
    /// Path to full HTML page
    pub page_path: String,
    /// Path to content fragment
    pub fragment_path: String,
    /// Audience scope (if set)
    pub scope: Option<String>,
    /// Authentication requirements
    pub authn: Option<String>,
    /// Required roles
    pub authz: Option<Vec<String>>,
    /// Fallback page for access denied
    pub fallback: Option<String>,
    /// Content hash for cache invalidation
    pub content_hash: String,
}

/// What a [`PageEntry`] holds.
pub struct PageModel {
    pub title: Seq<char>,
    pub source: Seq<char>,
    pub page_path: Seq<char>,
    pub fragment_path: Seq<char>,
    pub scope: Option<Seq<char>>,
    pub authn: Option<Seq<char>>,
    pub authz: Option<Seq<Seq<char>>>,
    pub fallback: Option<Seq<char>>,
    pub content_hash: Seq<char>,
}

impl View for PageEntry {
    type V = PageModel;

    open spec fn view(&self) -> PageModel {
        PageModel {
            title: self.title@,
            source: self.source@,
            page_path: self.page_path@,
            fragment_path: self.fragment_path@,
            scope: opt_view(self.scope),
            authn: opt_view(self.authn),
            authz: opt_views(self.authz),
            fallback: opt_view(self.fallback),
            content_hash: self.content_hash@,
        }
    }
}

/// The address of the schema that a manifest follows.
pub open spec fn manifest_schema() -> Seq<char> {
    "https://schemas.arusty.dev/mdbook-htmx/manifest.schema.json"@
}

/// The pages that a list of entries stands for: each URL with the entry that
/// was put under it last.
pub open spec fn page_map(entries: Seq<(String, PageEntry)>) -> Map<Seq<char>, PageModel>
    decreases entries.len(),
{
    if entries.len() == 0 {
        Map::empty()
    } else {
        page_map(entries.drop_last()).insert(entries.last().0@, entries.last().1@)
    }
}

/// No URL occurs twice among the entries.
pub open spec fn distinct_urls(entries: Seq<(String, PageEntry)>) -> bool {
    forall|i: int, j: int|
        0 <= i < j < entries.len() ==> (#[trigger] entries[i]).0@ != (#[trigger] entries[j]).0@
}

proof fn lemma_page_map_dom(entries: Seq<(String, PageEntry)>, url: Seq<char>)
    ensures
        page_map(entries).dom().contains(url) <==> exists|i: int|
            0 <= i < entries.len() && (#[trigger] entries[i]).0@ == url,
    decreases entries.len(),
{
    if entries.len() > 0 {
        let front = entries.drop_last();
        lemma_page_map_dom(front, url);
        if page_map(entries).dom().contains(url) {
            if entries.last().0@ == url {
                assert(entries[entries.len() - 1].0@ == url);
            } else {
                let i = choose|i: int| 0 <= i < front.len() && (#[trigger] front[i]).0@ == url;
                assert(entries[i].0@ == url);
            }
        }
        if exists|i: int| 0 <= i < entries.len() && (#[trigger] entries[i]).0@ == url {
            let i = choose|i: int| 0 <= i < entries.len() && (#[trigger] entries[i]).0@ == url;
            if i < front.len() {
                assert(front[i].0@ == url);
            }
        }
    }
}

proof fn lemma_page_map_replace(entries: Seq<(String, PageEntry)>, at: int, put: (String, PageEntry))
    requires
        distinct_urls(entries),
        0 <= at < entries.len(),
        entries[at].0@ == put.0@,
    ensures
        page_map(entries.update(at, put)) == page_map(entries).insert(put.0@, put.1@),
        distinct_urls(entries.update(at, put)),
    decreases entries.len(),
{
    let changed = entries.update(at, put);
    let front = entries.drop_last();
    if at == entries.len() - 1 {
        assert(changed.drop_last() == front);
        assert(page_map(changed) =~= page_map(entries).insert(put.0@, put.1@));
    } else {
        assert(distinct_urls(front)) by {
            assert forall|i: int, j: int| 0 <= i < j < front.len() implies (#[trigger] front[i]).0@
                != (#[trigger] front[j]).0@ by {
                assert(front[i] == entries[i] && front[j] == entries[j]);
            }
        }
        assert(front[at] == entries[at]);
        lemma_page_map_replace(front, at, put);
        assert(changed.drop_last() == front.update(at, put));
        assert(changed.last() == entries.last());
        assert(entries[at].0@ != entries[entries.len() - 1].0@);
        assert(page_map(changed) =~= page_map(entries).insert(put.0@, put.1@));
    }
    assert forall|i: int, j: int| 0 <= i < j < changed.len() implies (#[trigger] changed[i]).0@ != (
    #[trigger] changed[j]).0@ by {
        assert(changed[i].0@ == entries[i].0@);
        assert(changed[j].0@ == entries[j].0@);
    }
}

impl Manifest {
    /// No URL has two entries.
    pub open spec fn wf(&self) -> bool {
        distinct_urls(self.pages@)
    }

    /// The pages of the manifest by their URL.
    pub open spec fn by_url(&self) -> Map<Seq<char>, PageModel> {
        page_map(self.pages@)
    }

    /// How many entries the manifest keeps.
    pub open spec fn count(&self) -> nat {
        self.pages@.len()
    }

    /// Create a new empty manifest that was generated at the given time.
    pub fn new(generated_at: String) -> (r: Self)
        ensures
            r.wf(),
            r.schema@ == manifest_schema(),
            r.version@ == "1.0.0"@,
            r.generated_at@ == generated_at@,
            r.by_url() == Map::<Seq<char>, PageModel>::empty(),
            r.count() == 0,
    {
        Manifest {
            schema: "https://schemas.arusty.dev/mdbook-htmx/manifest.schema.json".to_owned(),
            version: "1.0.0".to_owned(),
            generated_at,
            pages: Vec::new(),
        }
    }

    /// Where the entry for `url_path` stands, if there is one.
    fn position(&self, url_path: &str) -> (r: Option<usize>)
        ensures
            match r {
                Some(at) => at < self.pages@.len() && self.pages@[at as int].0@ == url_path@,
                None => forall|i: int|
                    0 <= i < self.pages@.len() ==> (#[trigger] self.pages@[i]).0@ != url_path@,
            },
    {
        let mut i: usize = 0;
        while i < self.pages.len()
            invariant
                i <= self.pages.len(),
                forall|k: int| 0 <= k < i ==> (#[trigger] self.pages@[k]).0@ != url_path@,
            decreases self.pages.len() - i,
        {
            if str_eq(self.pages[i].0.as_str(), url_path) {
                return Some(i);
            }
            i += 1;
        }
        None
    }

    /// Add a page entry to the manifest. An entry that stands under the same
    /// URL is replaced.
    pub fn add_page(&mut self, url_path: String, entry: PageEntry)
        requires
            old(self).wf(),
        ensures
            final(self).wf(),
            final(self).by_url() == old(self).by_url().insert(url_path@, entry@),
            final(self).count() == if old(self).by_url().dom().contains(url_path@) {
                old(self).count()
            } else {
                old(self).count() + 1
            },
            final(self).schema == old(self).schema,
            final(self).version == old(self).version,
            final(self).generated_at == old(self).generated_at,
    {
        proof {
            lemma_page_map_dom(self.pages@, url_path@);
        }
        match self.position(url_path.as_str()) {
            Some(at) => {
                proof {
                    lemma_page_map_replace(self.pages@, at as int, (url_path, entry));
                }
                self.pages.set(at, (url_path, entry));
            },
            None => {
                let ghost before = self.pages@;
                self.pages.push((url_path, entry));
                assert(self.pages@.drop_last() == before);
            },
        }
    }

    /// The entry that stands under `url_path`.
    pub fn get(&self, url_path: &str) -> (r: Option<&PageEntry>)
        requires
            self.wf(),
        ensures
            match r {
                Some(entry) => self.by_url().dom().contains(url_path@) && self.by_url()[url_path@]
                    == entry@,
                None => !self.by_url().dom().contains(url_path@),
            },
    {
        proof {
            lemma_page_map_dom(self.pages@, url_path@);
        }
        match self.position(url_path) {
            Some(at) => {
                proof {
                    lemma_page_map_replace(self.pages@, at as int, self.pages@[at as int]);
                    assert(self.pages@.update(at as int, self.pages@[at as int]) == self.pages@);
                    assert(self.by_url().insert(url_path@, self.pages@[at as int].1@)[url_path@]
                        == self.pages@[at as int].1@);
                }
                Some(&self.pages[at].1)
            },
            None => None,
        }
    }

    /// How many pages the manifest holds.
    pub fn len(&self) -> (r: usize)
        ensures
            r == self.count(),
    {
        self.pages.len()
    }

    /// The URL and the entry of the page at place `index`, in the order in
    /// which the URLs were first added.
    pub fn entry(&self, index: usize) -> (r: (&String, &PageEntry))
        requires
            self.wf(),
            index < self.count(),
        ensures
            *r.0 == self.pages@[index as int].0,
            *r.1 == self.pages@[index as int].1,
            self.by_url().dom().contains(r.0@),
            self.by_url()[r.0@] == r.1@,
    {
        proof {
            lemma_page_map_replace(self.pages@, index as int, self.pages@[index as int]);
            assert(self.pages@.update(index as int, self.pages@[index as int]) == self.pages@);
            assert(self.by_url().insert(
                self.pages@[index as int].0@,
                self.pages@[index as int].1@,
            )[self.pages@[index as int].0@] == self.pages@[index as int].1@);
            assert(self.by_url().insert(
                self.pages@[index as int].0@,
                self.pages@[index as int].1@,
            ).dom().contains(self.pages@[index as int].0@));
        }
        (&self.pages[index].0, &self.pages[index].1)
    }
}

} // verus!
