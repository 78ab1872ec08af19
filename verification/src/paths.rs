//! Source-relative file paths as text: the file name, its extension, and the
//! public URL that a chapter's path maps to.
//!
//! A path is a sequence of characters in which `/` (and, on paths that come
//! from other platforms, `\`) separates the components.

use vstd::prelude::*;
use crate::text::{
    append, chars_eq, chars_of, ends_with, last_index_of, lemma_last_index_of, rfind_char, slice,
};

verus! {

/// Whether `c` separates the components of a path.
pub open spec fn is_separator(c: char) -> bool {
    c == '/' || c == '\\'
}

/// Where the file name of `path` begins: just after its last separator.
pub open spec fn file_name_start(path: Seq<char>) -> int
    decreases path.len(),
{
    if path.len() == 0 {
        0
    } else if is_separator(path.last()) {
        path.len() as int
    } else {
        file_name_start(path.drop_last())
    }
}

/// The last component of `path`.
pub open spec fn file_name(path: Seq<char>) -> Seq<char> {
    path.skip(file_name_start(path))
}

/// The index in `path` of the dot that begins the extension. A file name has
/// an extension when it holds a dot that is not its first character; the name
/// `..` has none.
pub open spec fn extension_dot(path: Seq<char>) -> Option<int> {
    let name = file_name(path);
    match last_index_of(name, '.') {
        Some(k) => if k > 0 && name != seq!['.', '.'] {
            Some(file_name_start(path) + k)
        } else {
            None
        },
        None => None,
    }
}

/// The extension of `path`: what follows the last dot of its file name.
pub open spec fn extension_of(path: Seq<char>) -> Option<Seq<char>> {
    match extension_dot(path) {
        Some(dot) => Some(path.skip(dot + 1)),
        None => None,
    }
}

/// `path` without its extension and the dot before it.
pub open spec fn strip_extension(path: Seq<char>) -> Seq<char> {
    match extension_dot(path) {
        Some(dot) => path.take(dot),
        None => path,
    }
}

/// `path` with its extension replaced by `ext`.
pub open spec fn replace_extension(path: Seq<char>, ext: Seq<char>) -> Seq<char> {
    strip_extension(path).push('.') + ext
}

/// `rel` below the directory `dir`. An absolute `rel` stands for itself.
pub open spec fn join_path(dir: Seq<char>, rel: Seq<char>) -> Seq<char> {
    if rel.len() > 0 && rel[0] == '/' {
        rel
    } else if dir.len() == 0 || dir.last() == '/' {
        dir + rel
    } else {
        dir.push('/') + rel
    }
}

pub proof fn lemma_file_name_start_bounds(path: Seq<char>)
    ensures
        0 <= file_name_start(path) <= path.len(),
    decreases path.len(),
{
    if path.len() > 0 && !is_separator(path.last()) {
        lemma_file_name_start_bounds(path.drop_last());
    }
}

pub proof fn lemma_extension_dot_bounds(path: Seq<char>)
    ensures
        extension_dot(path) matches Some(dot) ==> 0 < dot < path.len() && path[dot] == '.',
{
    lemma_file_name_start_bounds(path);
    lemma_last_index_of(file_name(path), '.');
}

/// A path is its stem, then a dot and its extension where it has one.
pub proof fn lemma_stem_and_extension(path: Seq<char>)
    ensures
        match extension_of(path) {
            Some(ext) => path == strip_extension(path).push('.') + ext,
            None => path == strip_extension(path),
        },
{
    lemma_extension_dot_bounds(path);
    if let Some(dot) = extension_dot(path) {
        assert(path =~= path.take(dot).push('.') + path.skip(dot + 1));
    }
}

/// Where the file name of `path` begins.
pub fn name_start(path: &Vec<char>) -> (r: usize)
    ensures
        r == file_name_start(path@),
        r <= path.len(),
{
    let mut i: usize = path.len();
    assert(path@.take(i as int) == path@);
    while i > 0
        invariant
            i <= path.len(),
            file_name_start(path@) == file_name_start(path@.take(i as int)),
        decreases i,
    {
        let c = path[i - 1];
        if c == '/' || c == '\\' {
            return i;
        }
        assert(path@.take(i as int).drop_last() == path@.take(i - 1));
        i -= 1;
    }
    0
}

/// The index of the dot that begins the extension of `path`, if it has one.
pub fn extension_index(path: &Vec<char>) -> (r: Option<usize>)
    ensures
        r is Some <==> extension_dot(path@) is Some,
        r matches Some(dot) ==> extension_dot(path@) == Some(dot as int) && dot < path.len(),
{
    let start = name_start(path);
    let name = slice(path, start, path.len());
    assert(name@ == file_name(path@));
    let dots = name.len() == 2 && name[0] == '.' && name[1] == '.';
    assert(dots == (name@ == seq!['.', '.'])) by {
        if dots {
            assert(name@ =~= seq!['.', '.']);
        }
    }
    assert(name@.take(name.len() as int) == name@);
    match rfind_char(&name, name.len(), '.') {
        Some(k) => {
            if k > 0 && !dots {
                Some(start + k)
            } else {
                None
            }
        },
        None => None,
    }
}

/// `path` without its extension.
pub fn without_extension(path: &Vec<char>) -> (r: Vec<char>)
    ensures
        r@ == strip_extension(path@),
{
    match extension_index(path) {
        Some(dot) => {
            let r = slice(path, 0, dot);
            assert(path@.subrange(0, dot as int) == path@.take(dot as int));
            r
        },
        None => {
            let r = slice(path, 0, path.len());
            assert(path@.subrange(0, path.len() as int) == path@);
            r
        },
    }
}

/// `path` with its extension replaced by `ext`.
pub fn with_extension(path: &str, ext: &str) -> (r: Vec<char>)
    ensures
        r@ == replace_extension(path@, ext@),
{
    let chars = chars_of(path);
    let mut r = without_extension(&chars);
    r.push('.');
    let ext_chars = chars_of(ext);
    append(&mut r, &ext_chars);
    r
}

/// `rel` below the directory `dir`.
pub fn joined(dir: &str, rel: &str) -> (r: Vec<char>)
    ensures
        r@ == join_path(dir@, rel@),
{
    let mut d = chars_of(dir);
    let rest = chars_of(rel);
    if rest.len() > 0 && rest[0] == '/' {
        return rest;
    }
    if d.len() > 0 && d[d.len() - 1] != '/' {
        d.push('/');
    }
    append(&mut d, &rest);
    d
}

/// The path with every backslash turned into a forward slash.
pub open spec fn forward_slashes(path: Seq<char>) -> Seq<char> {
    Seq::new(path.len(), |i: int| if path[i] == '\\' { '/' } else { path[i] })
}

/// The public URL of the page whose path, without extension, is `stem`. The
/// index document `README` stands for its directory.
pub open spec fn url_of(stem: Seq<char>) -> Seq<char> {
    if stem == "README"@ {
        seq!['/']
    } else if "/README"@.is_suffix_of(stem) {
        seq!['/'] + stem.take(stem.len() - "/README"@.len()).push('/')
    } else {
        seq!['/'] + forward_slashes(stem)
    }
}

/// The public URL of the page made from the file at `path`.
pub open spec fn path_url(path: Seq<char>) -> Seq<char> {
    url_of(strip_extension(path))
}

/// The public URL of the page made from the file at `path`.
pub fn url_chars(path: &Vec<char>) -> (r: Vec<char>)
    ensures
        r@ == path_url(path@),
{
    let stem = without_extension(path);
    let readme = chars_of("README");
    let readme_below = chars_of("/README");
    let mut url: Vec<char> = Vec::new();
    url.push('/');
    if chars_eq(&stem, &readme) {
        assert(url@ == seq!['/']);
    } else if ends_with(&stem, &readme_below) {
        let parent = slice(&stem, 0, stem.len() - readme_below.len());
        assert(parent@ == stem@.take(stem@.len() - "/README"@.len()));
        append(&mut url, &parent);
        url.push('/');
        assert(url@ == seq!['/'] + parent@.push('/'));
    } else {
        let mut i: usize = 0;
        while i < stem.len()
            invariant
                i <= stem.len(),
                url@ == seq!['/'] + forward_slashes(stem@).take(i as int),
            decreases stem.len() - i,
        {
            let c = stem[i];
            url.push(if c == '\\' { '/' } else { c });
            assert(forward_slashes(stem@).take(i + 1) == forward_slashes(stem@).take(
                i as int,
            ).push(forward_slashes(stem@)[i as int]));
            i += 1;
        }
        assert(forward_slashes(stem@).take(stem.len() as int) == forward_slashes(stem@));
    }
    url
}

/// A stem that a chapter can have: it is not empty, holds no backslash and
/// does not end in a slash.
pub open spec fn chapter_stem(stem: Seq<char>) -> bool {
    &&& stem.len() > 0
    &&& stem.last() != '/'
    &&& forall|i: int| 0 <= i < stem.len() ==> stem[i] != '\\'
}

/// Two chapter stems with the same URL are the same stem.
pub proof fn lemma_url_of_injective(a: Seq<char>, b: Seq<char>)
    requires
        chapter_stem(a),
        chapter_stem(b),
        url_of(a) == url_of(b),
    ensures
        a == b,
{
    reveal_strlit("README");
    reveal_strlit("/README");
    let slash = seq!['/'];
    let n = "/README"@.len() as int;
    assert(n == 7);
    assert(forward_slashes(a) =~= a);
    assert(forward_slashes(b) =~= b);
    let tail_a = url_of(a).skip(1);
    let tail_b = url_of(b).skip(1);
    assert(tail_a == tail_b);
    let index_a = a == "README"@;
    let index_b = b == "README"@;
    let below_a = !index_a && "/README"@.is_suffix_of(a);
    let below_b = !index_b && "/README"@.is_suffix_of(b);
    if index_a {
        assert(tail_a =~= Seq::<char>::empty());
    } else if below_a {
        assert(tail_a =~= a.take(a.len() - n).push('/'));
    } else {
        assert(tail_a =~= a);
    }
    if index_b {
        assert(tail_b =~= Seq::<char>::empty());
    } else if below_b {
        assert(tail_b =~= b.take(b.len() - n).push('/'));
    } else {
        assert(tail_b =~= b);
    }
    if below_a && below_b {
        let pa = a.take(a.len() - n);
        let pb = b.take(b.len() - n);
        assert(pa == pa.push('/').drop_last());
        assert(pb == pb.push('/').drop_last());
        assert(a =~= pa + a.skip(a.len() - n));
        assert(b =~= pb + b.skip(b.len() - n));
    } else if below_a {
        assert(tail_a.last() == '/');
    } else if below_b {
        assert(tail_b.last() == '/');
    }
}

/// No two chapters share a URL: two paths with the same extension, whose
/// stems are chapter stems, have the same URL only if they are the same path.
pub proof fn lemma_path_url_injective(a: Seq<char>, b: Seq<char>)
    requires
        chapter_stem(strip_extension(a)),
        chapter_stem(strip_extension(b)),
        extension_of(a) == extension_of(b),
        path_url(a) == path_url(b),
    ensures
        a == b,
{
    lemma_url_of_injective(strip_extension(a), strip_extension(b));
    lemma_stem_and_extension(a);
    lemma_stem_and_extension(b);
}

/// The file path with `hash` put before its extension: `style.css` becomes
/// `style.<hash>.css`, and a name without extension gets `.<hash>` appended.
pub open spec fn hashed(path: Seq<char>, hash: Seq<char>) -> Seq<char> {
    let base = strip_extension(path).push('.') + hash;
    match extension_of(path) {
        Some(ext) => if ext.len() > 0 {
            base.push('.') + ext
        } else {
            base
        },
        None => base,
    }
}

/// The file path with `hash` put before its extension.
pub fn hashed_chars(path: &Vec<char>, hash: &Vec<char>) -> (r: Vec<char>)
    ensures
        r@ == hashed(path@, hash@),
{
    let mut r = without_extension(path);
    r.push('.');
    append(&mut r, hash);
    match extension_index(path) {
        Some(dot) => {
            if dot + 1 < path.len() {
                let ext = slice(path, dot + 1, path.len());
                assert(ext@ == path@.skip(dot + 1));
                r.push('.');
                append(&mut r, &ext);
            } else {
                assert(path@.skip(dot + 1).len() == 0);
            }
        },
        None => {},
    }
    r
}

} // verus!
