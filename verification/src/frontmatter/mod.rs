//! The metadata block at the start of a chapter, and the policy it declares.
//!
//! A block opens with `---` at the very start of the text and closes at the
//! first line after it that begins with `---`. What stands between is handed
//! to a decoder; this module finds the block and says what comes of each
//! answer of the decoder.

use vstd::prelude::*;
use vstd::string::StrSliceExecFns;
use crate::error::BuildError;
use crate::text::{
    chars_of, find, find_first, lemma_find_from, occurs_at, skip_blank_lines, slice,
    starts_with, str_eq, without_blank_lines,
};

verus! {

/// Parsed frontmatter from a chapter file.
#[derive(Debug, Clone)]
pub struct Frontmatter {
    /// Page title (overrides the chapter's name)
    pub title: Option<String>,
    /// Page description for meta tags
    pub description: Option<String>,
    /// Audience scope for access control
    pub scope: Option<String>,
    /// Required authentication level
    pub authn: Option<AuthnLevel>,
    /// Required roles for access
    pub authz: Option<Vec<String>>,
    /// Fallback page path when access denied
    pub fallback: Option<String>,
    /// Custom template to use
    pub template: Option<String>,
    /// Exclude from search index
    pub no_search: bool,
    /// Exclude from navigation
    pub hidden: bool,
}

impl Frontmatter {
    /// The metadata of a page that declares nothing: public and included
    /// everywhere.
    pub open spec fn is_default(&self) -> bool {
        &&& self.title is None
        &&& self.description is None
        &&& self.scope is None
        &&& self.authn is None
        &&& self.authz is None
        &&& self.fallback is None
        &&& self.template is None
        &&& !self.no_search
        &&& !self.hidden
    }
}

impl Default for Frontmatter {
    fn default() -> (r: Self)
        ensures
            r.is_default(),
    {
        Frontmatter {
            title: None,
            description: None,
            scope: None,
            authn: None,
            authz: None,
            fallback: None,
            template: None,
            no_search: false,
            hidden: false,
        }
    }
}

/// Authentication level requirements, in rising order.
#[derive(Debug, Clone, Copy, PartialEq, Eq, PartialOrd, Ord, Structural)]
pub enum AuthnLevel {
    /// No authentication required
    Public,
    /// Must be authenticated
    Authenticated,
    /// Must be authenticated and verified
    Verified,
}

impl AuthnLevel {
    /// The name of the level.
    pub open spec fn name(self) -> Seq<char> {
        match self {
            AuthnLevel::Public => "public"@,
            AuthnLevel::Authenticated => "authenticated"@,
            AuthnLevel::Verified => "verified"@,
        }
    }

    /// The place of the level in the order `Public < Authenticated < Verified`.
    pub open spec fn rank(self) -> nat {
        match self {
            AuthnLevel::Public => 0,
            AuthnLevel::Authenticated => 1,
            AuthnLevel::Verified => 2,
        }
    }

    /// Get the string representation of the level.
    pub fn as_str(&self) -> (r: &'static str)
        ensures
            r@ == self.name(),
    {
        match self {
            AuthnLevel::Public => "public",
            AuthnLevel::Authenticated => "authenticated",
            AuthnLevel::Verified => "verified",
        }
    }

    /// The name of the level as an owned text.
    pub fn to_string(&self) -> (r: String)
        ensures
            r@ == self.name(),
    {
        self.as_str().to_owned()
    }

    /// The level that `name` names, if it names one.
    pub fn from_name(name: &str) -> (r: Option<AuthnLevel>)
        ensures
            match r {
                Some(level) => level.name() == name@,
                None => name@ != "public"@ && name@ != "authenticated"@ && name@ != "verified"@,
            },
    {
        if str_eq(name, "public") {
            Some(AuthnLevel::Public)
        } else if str_eq(name, "authenticated") {
            Some(AuthnLevel::Authenticated)
        } else if str_eq(name, "verified") {
            Some(AuthnLevel::Verified)
        } else {
            None
        }
    }

    /// Whether a reader at this level may see a page that requires
    /// `required`: the page's level is at most the reader's.
    pub fn allows(&self, required: AuthnLevel) -> (r: bool)
        ensures
            r == (required.rank() <= self.rank()),
    {
        match (self, required) {
            (_, AuthnLevel::Public) => true,
            (AuthnLevel::Public, _) => false,
            (AuthnLevel::Authenticated, AuthnLevel::Authenticated) => true,
            (AuthnLevel::Authenticated, AuthnLevel::Verified) => false,
            (AuthnLevel::Verified, _) => true,
        }
    }
}

/// The level of a reader who presents `name`: the level that `name` names,
/// and `Public` for any other name.
pub open spec fn reader_level(name: Seq<char>) -> AuthnLevel {
    if name == "authenticated"@ {
        AuthnLevel::Authenticated
    } else if name == "verified"@ {
        AuthnLevel::Verified
    } else {
        AuthnLevel::Public
    }
}

/// The level that a page requires when it records `name`: the level that
/// `name` names, and `Authenticated` for any other name.
pub open spec fn required_level(name: Seq<char>) -> AuthnLevel {
    if name == "public"@ {
        AuthnLevel::Public
    } else if name == "verified"@ {
        AuthnLevel::Verified
    } else {
        AuthnLevel::Authenticated
    }
}

/// Whether a reader at `level` may see a page that requires `required`: the
/// page's level is at most the reader's, in the order
/// `Public < Authenticated < Verified`.
pub open spec fn admits(level: Seq<char>, required: Seq<char>) -> bool {
    required_level(required).rank() <= reader_level(level).rank()
}

/// The names of the three levels differ, and each stands for its level, of a
/// reader and of a page alike.
pub proof fn lemma_level_names(level: AuthnLevel)
    ensures
        reader_level(level.name()) == level,
        required_level(level.name()) == level,
{
    reveal_strlit("public");
    reveal_strlit("authenticated");
    reveal_strlit("verified");
    assert("public"@.len() == 6);
    assert("authenticated"@.len() == 13);
    assert("verified"@.len() == 8);
}

/// Whether a reader at `level` may see a page that requires `required`.
pub fn level_admits(level: &str, required: &str) -> (r: bool)
    ensures
        r == admits(level@, required@),
{
    let reader = match AuthnLevel::from_name(level) {
        Some(found) => found,
        None => AuthnLevel::Public,
    };
    let needed = match AuthnLevel::from_name(required) {
        Some(found) => found,
        None => AuthnLevel::Authenticated,
    };
    proof {
        lemma_level_names(reader);
        lemma_level_names(needed);
    }
    reader.allows(needed)
}

/// Among the three levels, a reader sees a page exactly when the page's
/// level is at most the reader's.
pub proof fn lemma_admits_order(level: AuthnLevel, required: AuthnLevel)
    ensures
        admits(level.name(), required.name()) <==> required.rank() <= level.rank(),
{
    lemma_level_names(level);
    lemma_level_names(required);
}

/// A page that requires `public` is open to every reader, and a reader at
/// `verified` sees every page.
pub proof fn lemma_admits_ends(level: Seq<char>, required: Seq<char>)
    ensures
        admits(level, "public"@),
        admits("verified"@, required),
{
    lemma_level_names(AuthnLevel::Public);
    lemma_level_names(AuthnLevel::Verified);
}

/// A metadata block found at the start of a chapter.
#[derive(Debug, Clone, Copy)]
pub struct FrontmatterBlock<'a> {
    /// What stands between the opening and the closing marker
    pub yaml: &'a str,
    /// What follows the closing marker, without the blank lines at its start
    pub content: &'a str,
}

/// The metadata block of `content` and the text after it: the block begins
/// after a `---` at the very start and ends before the first line break that
/// `---` follows; the text after it loses its leading blank lines, and the
/// first line that holds anything stays whole. Without the opening marker, or
/// without a closing one, there is no block.
pub open spec fn block_of(content: Seq<char>) -> Option<(Seq<char>, Seq<char>)> {
    if "---"@.is_prefix_of(content) {
        let rest = content.skip("---"@.len() as int);
        match find_first(rest, "\n---"@) {
            Some(end) => Some(
                (rest.take(end), without_blank_lines(rest.skip(end + "\n---"@.len()))),
            ),
            None => None,
        }
    } else {
        None
    }
}

/// The block ends at the first closing marker: the text of a block holds no
/// line break that `---` follows, and the content begins after the marker's
/// four characters and the blank lines behind them.
pub proof fn lemma_block_ends_first(content: Seq<char>)
    requires
        block_of(content) is Some,
    ensures
        ({
            let (yaml, rest) = block_of(content)->0;
            let marker = "\n---"@;
            let after = content.skip("---"@.len() as int);
            &&& yaml.is_prefix_of(after)
            &&& occurs_at(after, marker, yaml.len() as int)
            &&& forall|j: int| 0 <= j < yaml.len() ==> !occurs_at(after, marker, j)
            &&& rest == without_blank_lines(after.skip((yaml.len() + marker.len()) as int))
        }),
{
    let after = content.skip("---"@.len() as int);
    lemma_find_from(after, "\n---"@, 0);
}

/// Finds the metadata block at the start of `content`.
pub fn split_frontmatter<'a>(content: &'a str) -> (r: Option<FrontmatterBlock<'a>>)
    ensures
        match r {
            Some(block) => block_of(content@) == Some((block.yaml@, block.content@)),
            None => block_of(content@) is None,
        },
{
    let chars = chars_of(content);
    let opening = chars_of("---");
    let closing = chars_of("\n---");
    if !starts_with(&chars, &opening) {
        return None;
    }
    let rest = slice(&chars, opening.len(), chars.len());
    assert(rest@ == content@.skip("---"@.len() as int));
    match find(&rest, &closing) {
        Some(end) => {
            let after = opening.len() + end + closing.len();
            let start = skip_blank_lines(&chars, after);
            proof {
                assert(rest@.skip(end + "\n---"@.len()) == chars@.skip(after as int));
                assert(chars@.subrange(opening.len() as int, opening.len() + end) == rest@.take(
                    end as int,
                ));
                assert(chars@.subrange(start as int, chars.len() as int) == chars@.skip(
                    start as int,
                ));
            }
            Some(
                FrontmatterBlock {
                    yaml: content.substring_char(opening.len(), opening.len() + end),
                    content: content.substring_char(start, chars.len()),
                },
            )
        },
        None => None,
    }
}

/// What parsing comes to, once the decoder has answered for the block: its
/// metadata with the text after the block, or its complaint as an error that
/// names the chapter.
pub open spec fn is_outcome(
    r: Result<(Frontmatter, &str), BuildError>,
    decoded: Result<Frontmatter, String>,
    content: Seq<char>,
    path: Seq<char>,
) -> bool {
    match decoded {
        Ok(frontmatter) => r matches Ok((found, rest)) && found == frontmatter && rest@ == content,
        Err(detail) => r matches Err(BuildError::InvalidFrontmatter { path: p, source })
            && p@ == path && source@ == detail@,
    }
}

/// Joins a block with what the decoder made of it.
pub fn frontmatter_result<'a>(
    block: FrontmatterBlock<'a>,
    decoded: Result<Frontmatter, String>,
    path: &str,
) -> (r: Result<(Frontmatter, &'a str), BuildError>)
    ensures
        is_outcome(r, decoded, block.content@, path@),
{
    match decoded {
        Ok(frontmatter) => Ok((frontmatter, block.content)),
        Err(detail) => Err(BuildError::InvalidFrontmatter { path: path.to_owned(), source: detail }),
    }
}

/// Parse frontmatter from chapter content.
///
/// A text without a block at its start has the default metadata and is its
/// own content. Otherwise `decode` is asked once, for the block's text, and
/// its answer decides.
pub fn parse_frontmatter<'a, F: Fn(&str) -> Result<Frontmatter, String>>(
    content: &'a str,
    path: &str,
    decode: F,
) -> (r: Result<(Frontmatter, &'a str), BuildError>)
    requires
        forall|yaml: &str| call_requires(decode, (yaml,)),
    ensures
        block_of(content@) is None ==> (r matches Ok((frontmatter, rest))
            && frontmatter.is_default() && rest@ == content@),
        block_of(content@) matches Some((yaml, rest)) ==> exists|
            text: &str,
            decoded: Result<Frontmatter, String>,
        |
            text@ == yaml && #[trigger] call_ensures(decode, (text,), decoded) && is_outcome(
                r,
                decoded,
                rest,
                path@,
            ),
{
    match split_frontmatter(content) {
        Some(block) => {
            let decoded = decode(block.yaml);
            frontmatter_result(block, decoded, path)
        },
        None => Ok((Frontmatter::default(), content)),
    }
}

} // verus!
