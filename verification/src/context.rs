//! The book as the host build tool hands it over: the chapter tree, the book's
//! metadata, and the linearization of the tree in document order.

use vstd::prelude::*;

verus! {

/// The complete render context of one pass.
#[derive(Debug)]
pub struct RenderContext {
    /// Version string of the host build tool
    pub version: String,
    /// Root directory of the book source
    pub root: String,
    /// The book content and structure
    pub book: Book,
    /// Configuration of the book: its metadata and build settings
    pub config: BookConfig,
    /// Output destination directory
    pub destination: String,
}

/// The book content structure.
#[derive(Debug)]
pub struct Book {
    /// All sections (chapters) in the book
    pub sections: Vec<BookItem>,
}

/// A single item in the book (chapter or separator).
#[derive(Debug)]
pub enum BookItem {
    /// A chapter with content
    Chapter(Chapter),
    /// A separator line in the table of contents
    Separator,
    /// A part title (header without content)
    PartTitle(String),
}

/// A chapter in the book.
#[derive(Debug)]
pub struct Chapter {
    /// Chapter name/title
    pub name: String,
    /// Chapter content (Markdown)
    pub content: String,
    /// Output-relative path of the chapter; a draft has none
    pub path: Option<String>,
    /// Path of the source file the chapter came from
    pub source_path: Option<String>,
    /// Chapter number (e.g., [1, 2] for chapter 1.2)
    pub number: Option<Vec<u32>>,
    /// Nested sub-chapters
    pub sub_items: Vec<BookItem>,
    /// Parent chapter names for breadcrumb
    pub parent_names: Vec<String>,
}

/// The book's configuration.
#[derive(Debug, Clone)]
pub struct BookConfig {
    /// Book metadata
    pub book: BookMetadata,
    /// Build configuration
    pub build: BuildConfig,
}

/// Book metadata.
#[derive(Debug, Clone)]
pub struct BookMetadata {
    /// Book title
    pub title: Option<String>,
    /// Book authors
    pub authors: Vec<String>,
    /// Book description
    pub description: Option<String>,
    /// Source directory (default: "src")
    pub src: String,
    /// Language code (default: "en")
    pub language: String,
}

/// Build configuration.
#[derive(Debug, Clone)]
pub struct BuildConfig {
    /// Build directory (default: "book")
    pub build_dir: String,
    /// Create missing files
    pub create_missing: bool,
}

impl Default for BuildConfig {
    fn default() -> (r: Self)
        ensures
            r.build_dir@ == Seq::<char>::empty(),
            !r.create_missing,
    {
        BuildConfig { build_dir: String::new(), create_missing: false }
    }
}

/// The source directory of a book that names none.
pub fn default_src() -> (r: String)
    ensures
        r@ == "src"@,
{
    "src".to_owned()
}

/// The language of a book that names none.
pub fn default_language() -> (r: String)
    ensures
        r@ == "en"@,
{
    "en".to_owned()
}

/// The build directory of a book that names none.
pub fn default_build_dir() -> (r: String)
    ensures
        r@ == "book"@,
{
    "book".to_owned()
}

/// The chapters of `items` in document order: each chapter, then the chapters
/// below it, then what follows it. Separators and part titles yield nothing.
pub open spec fn flatten(items: Seq<BookItem>) -> Seq<Chapter>
    decreases items,
{
    if items.len() == 0 {
        Seq::empty()
    } else {
        item_chapters(items.first()) + flatten(items.drop_first())
    }
}

/// The chapters that one item of the tree stands for.
pub open spec fn item_chapters(item: BookItem) -> Seq<Chapter>
    decreases item,
{
    match item {
        BookItem::Chapter(chapter) => seq![chapter] + flatten(chapter.sub_items@),
        _ => Seq::empty(),
    }
}

/// The chapters that the references of `found` point to.
pub open spec fn pointed(found: Seq<&Chapter>) -> Seq<Chapter> {
    Seq::new(found.len(), |i: int| *found[i])
}

/// The parts of a semantic version that decide its precedence over a release.
#[derive(Debug, Clone)]
pub struct VersionParts {
    /// Major version
    pub major: u64,
    /// Minor version
    pub minor: u64,
    /// Patch version
    pub patch: u64,
    /// The pre-release identifiers; empty for a release
    pub pre: String,
}

/// The parts of `text` read as a semantic version, where it is one.
pub uninterp spec fn semver_parts(text: Seq<char>) -> Option<(u64, u64, u64, Seq<char>)>;

/// `semver::Version::parse`: the numbers and the pre-release tag of the
/// version that `text` spells, or nothing where it spells none.
#[verifier::external_body]
fn parse_version(text: &str) -> (r: Option<VersionParts>)
    ensures
        match r {
            Some(v) => semver_parts(text@) == Some((v.major, v.minor, v.patch, v.pre@)),
            None => semver_parts(text@) is None,
        },
{
    match semver::Version::parse(text) {
        Ok(v) => Some(
            VersionParts { major: v.major, minor: v.minor, patch: v.patch, pre: v.pre.to_string() },
        ),
        Err(_) => None,
    }
}

/// Whether a version with these parts has at least the precedence of the
/// release `major.minor.patch`: its numbers are greater in lexicographic
/// order, or they are equal and it is itself a release.
pub open spec fn at_least(
    version: (u64, u64, u64, Seq<char>),
    major: u64,
    minor: u64,
    patch: u64,
) -> bool {
    ||| version.0 > major
    ||| version.0 == major && version.1 > minor
    ||| version.0 == major && version.1 == minor && version.2 > patch
    ||| version.0 == major && version.1 == minor && version.2 == patch && version.3.len() == 0
}

/// Whether `version` is one that this renderer works with: `0.4.21` or later,
/// or a text that is no semantic version at all.
pub open spec fn supported(version: Seq<char>) -> bool {
    match semver_parts(version) {
        Some(parts) => at_least(parts, 0, 4, 21),
        None => true,
    }
}

impl VersionParts {
    /// The parts as plain values.
    pub open spec fn view(&self) -> (u64, u64, u64, Seq<char>) {
        (self.major, self.minor, self.patch, self.pre@)
    }

    /// Whether this version has at least the precedence of the release
    /// `major.minor.patch`.
    pub fn is_at_least(&self, major: u64, minor: u64, patch: u64) -> (r: bool)
        ensures
            r == at_least(self@, major, minor, patch),
    {
        if self.major != major {
            self.major > major
        } else if self.minor != minor {
            self.minor > minor
        } else if self.patch != patch {
            self.patch > patch
        } else {
            self.pre.as_str().is_empty()
        }
    }
}

impl RenderContext {
    /// Check if the host build tool's version is supported (0.4.21 or later).
    /// A version text that cannot be read counts as supported.
    pub fn is_supported_version(&self) -> (r: bool)
        ensures
            r == supported(self.version@),
    {
        match parse_version(self.version.as_str()) {
            Some(version) => version.is_at_least(0, 4, 21),
            None => true,
        }
    }

    /// Get all chapters (flattened from nested structure).
    pub fn iter_chapters(&self) -> (r: Vec<&Chapter>)
        ensures
            pointed(r@) == flatten(self.book.sections@),
    {
        let mut walk = ChapterIterator::new(&self.book.sections);
        let mut found: Vec<&Chapter> = Vec::new();
        loop
            invariant
                walk.wf(),
                pointed(found@) + walk.remaining() == flatten(self.book.sections@),
            decreases walk.remaining().len(),
        {
            match walk.next() {
                Some(chapter) => {
                    let ghost before = pointed(found@);
                    found.push(chapter);
                    assert(pointed(found@) == before.push(*chapter));
                    assert(before.push(*chapter) + walk.remaining() == before + (seq![*chapter]
                        + walk.remaining()));
                },
                None => {
                    assert(pointed(found@) + walk.remaining() == pointed(found@));
                    return found;
                },
            }
        }
    }
}

/// One level of the walk: a list of items and how many of them are done.
struct Frame<'a> {
    items: &'a Vec<BookItem>,
    next: usize,
}

/// A walk over all chapters of a tree, depth first, one chapter at a time.
/// It keeps its own stack, so the depth of the tree costs no recursion.
pub struct ChapterIterator<'a> {
    stack: Vec<Frame<'a>>,
}

/// The chapters that the frames of `stack` have still to yield, innermost
/// frame first.
spec fn pending(stack: Seq<Frame<'_>>) -> Seq<Chapter>
    decreases stack.len(),
{
    if stack.len() == 0 {
        Seq::empty()
    } else {
        flatten(stack.last().items@.skip(stack.last().next as int)) + pending(stack.drop_last())
    }
}

/// The steps that the walk can still take: one for each item not yet looked
/// at and one for each frame.
spec fn steps(stack: Seq<Frame<'_>>) -> nat
    decreases stack.len(),
{
    if stack.len() == 0 {
        0
    } else {
        (stack.last().items@.len() - stack.last().next + 1) as nat + steps(stack.drop_last())
    }
}

impl<'a> ChapterIterator<'a> {
    /// Every frame has done no more items than it holds.
    pub closed spec fn wf(&self) -> bool {
        forall|i: int|
            0 <= i < self.stack@.len() ==> (#[trigger] self.stack@[i]).next
                <= self.stack@[i].items@.len()
    }

    /// The chapters still to come, in the order in which they will come.
    pub closed spec fn remaining(&self) -> Seq<Chapter> {
        pending(self.stack@)
    }

    /// A walk that starts before the first item of `sections`.
    pub fn new(sections: &'a Vec<BookItem>) -> (r: Self)
        ensures
            r.wf(),
            r.remaining() == flatten(sections@),
    {
        let mut stack: Vec<Frame<'a>> = Vec::new();
        stack.push(Frame { items: sections, next: 0 });
        proof {
            assert(stack@.drop_last() == Seq::<Frame<'a>>::empty());
            assert(sections@.skip(0) == sections@);
            assert(pending(stack@) == flatten(sections@) + pending(stack@.drop_last()));
        }
        ChapterIterator { stack }
    }

    /// The next chapter in document order, or `None` when the walk is over.
    pub fn next(&mut self) -> (r: Option<&'a Chapter>)
        requires
            old(self).wf(),
        ensures
            final(self).wf(),
            match r {
                Some(chapter) => old(self).remaining() == seq![*chapter] + final(self).remaining(),
                None => old(self).remaining().len() == 0 && final(self).remaining().len() == 0,
            },
    {
        loop
            invariant
                self.wf(),
                self.remaining() == old(self).remaining(),
            decreases steps(self.stack@),
        {
            let ghost before = self.stack@;
            let frame = match self.stack.pop() {
                Some(frame) => frame,
                None => {
                    return None;
                },
            };
            let ghost below = self.stack@;
            assert(below == before.drop_last());
            assert(frame.next <= frame.items@.len()) by {
                assert(frame == before[before.len() - 1]);
            }
            if frame.next < frame.items.len() {
                let item = &frame.items[frame.next];
                let rest = Frame { items: frame.items, next: frame.next + 1 };
                let ghost after = flatten(frame.items@.skip(frame.next + 1));
                proof {
                    let from = frame.items@.skip(frame.next as int);
                    assert(from.first() == *item);
                    assert(from.drop_first() == frame.items@.skip(frame.next + 1));
                    assert(flatten(from) == item_chapters(*item) + after);
                    assert(pending(before) == flatten(from) + pending(below));
                }
                self.stack.push(rest);
                let ghost outer = self.stack@;
                proof {
                    assert(outer.drop_last() == below);
                    assert(outer.last() == rest);
                    assert(pending(outer) == after + pending(below));
                }
                match item {
                    BookItem::Chapter(chapter) => {
                        let ghost below_chapter = flatten(chapter.sub_items@);
                        assert(item_chapters(*item) == seq![*chapter] + below_chapter);
                        if chapter.sub_items.len() > 0 {
                            self.stack.push(Frame { items: &chapter.sub_items, next: 0 });
                            proof {
                                assert(self.stack@.drop_last() == outer);
                                assert(chapter.sub_items@.skip(0) == chapter.sub_items@);
                                assert(pending(self.stack@) == below_chapter + pending(outer));
                            }
                        } else {
                            proof {
                                assert(chapter.sub_items@ == Seq::<BookItem>::empty());
                                assert(below_chapter == Seq::<Chapter>::empty());
                                assert(below_chapter + pending(outer) == pending(outer));
                            }
                        }
                        proof {
                            assert(pending(self.stack@) == below_chapter + (after + pending(
                                below,
                            )));
                            assert(((seq![*chapter] + below_chapter) + after) + pending(below)
                                == seq![*chapter] + (below_chapter + (after + pending(below))));
                        }
                        return Some(chapter);
                    },
                    _ => {
                        proof {
                            assert(item_chapters(*item) == Seq::<Chapter>::empty());
                            assert(Seq::<Chapter>::empty() + after == after);
                        }
                    },
                }
            } else {
                proof {
                    assert(frame.items@.skip(frame.next as int) == Seq::<BookItem>::empty());
                    assert(Seq::<Chapter>::empty() + pending(below) == pending(below));
                }
            }
        }
    }
}

} // verus!
