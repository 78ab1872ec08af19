//! Text as sequences of characters: conversions between `str`, `String` and
//! `Vec<char>`, searches, and splitting into words.
//!
//! Every position in this module counts characters, never bytes; the one
//! place where the encoded size matters is [`utf8_width`].

use vstd::prelude::*;

verus! {

/// `String::push` appends one character to the text.
pub assume_specification[ String::push ](s: &mut String, c: char)
    ensures
        final(s)@ == old(s)@.push(c),
;

/// The lowercase form of a text, as `str::to_lowercase` computes it from the
/// Unicode tables.
pub uninterp spec fn lowercased(s: Seq<char>) -> Seq<char>;

/// `str::to_lowercase`: the result is the lowercase form of the whole text.
#[verifier::external_body]
pub(crate) fn to_lowercase(s: &str) -> (r: String)
    ensures
        r@ == lowercased(s@),
{
    s.to_lowercase()
}

/// Whether a character is alphabetic or numeric in Unicode's sense.
pub uninterp spec fn alphanumeric(c: char) -> bool;

/// `char::is_alphanumeric` decides [`alphanumeric`].
pub assume_specification[ char::is_alphanumeric ](c: char) -> (r: bool)
    ensures
        r == alphanumeric(c),
;

/// Whether a character has Unicode's `White_Space` property: the controls
/// from tab to carriage return, the space, next line, the no-break space, the
/// ogham space mark, the spaces from en quad to hair space, the line and the
/// paragraph separator, and the narrow no-break, the medium mathematical and
/// the ideographic space.
pub open spec fn whitespace(c: char) -> bool {
    let code = c as u32;
    ||| 0x09 <= code <= 0x0D
    ||| code == 0x20
    ||| code == 0x85
    ||| code == 0xA0
    ||| code == 0x1680
    ||| 0x2000 <= code <= 0x200A
    ||| code == 0x2028
    ||| code == 0x2029
    ||| code == 0x202F
    ||| code == 0x205F
    ||| code == 0x3000
}

/// Whether `c` is whitespace.
pub fn is_whitespace(c: char) -> (r: bool)
    ensures
        r == whitespace(c),
{
    let code: u32 = c as u32;
    (0x09 <= code && code <= 0x0D) || code == 0x20 || code == 0x85 || code == 0xA0 || code
        == 0x1680 || (0x2000 <= code && code <= 0x200A) || code == 0x2028 || code == 0x2029
        || code == 0x202F || code == 0x205F || code == 0x3000
}

/// The characters of `s`, in order.
pub fn chars_of(s: &str) -> (v: Vec<char>)
    ensures
        v@ == s@,
{
    let mut v: Vec<char> = Vec::new();
    for c in it: s.chars()
        invariant
            it.seq() == s@,
            v@ == s@.take(it.index()),
    {
        v.push(c);
    }
    v
}

/// The text whose characters are `v`, in order.
pub fn string_of(v: &Vec<char>) -> (s: String)
    ensures
        s@ == v@,
{
    let mut s = String::new();
    let mut i: usize = 0;
    while i < v.len()
        invariant
            i <= v.len(),
            s@ == v@.take(i as int),
        decreases v.len() - i,
    {
        s.push(v[i]);
        i += 1;
    }
    s
}

/// Whether two texts hold the same characters.
pub fn str_eq(a: &str, b: &str) -> (r: bool)
    ensures
        r == (a@ == b@),
{
    let x = chars_of(a);
    let y = chars_of(b);
    chars_eq(&x, &y)
}

/// Whether two character vectors are equal.
pub fn chars_eq(a: &Vec<char>, b: &Vec<char>) -> (r: bool)
    ensures
        r == (a@ == b@),
{
    if a.len() != b.len() {
        return false;
    }
    let mut i: usize = 0;
    while i < a.len()
        invariant
            i <= a.len(),
            a.len() == b.len(),
            a@.take(i as int) == b@.take(i as int),
        decreases a.len() - i,
    {
        if a[i] != b[i] {
            return false;
        }
        assert(a@.take(i + 1) == a@.take(i as int).push(a@[i as int]));
        assert(b@.take(i + 1) == b@.take(i as int).push(b@[i as int]));
        i += 1;
    }
    assert(a@.take(a.len() as int) == a@);
    assert(b@.take(b.len() as int) == b@);
    true
}

/// The characters of `text` from `from` up to, not including, `to`.
pub fn slice(text: &Vec<char>, from: usize, to: usize) -> (r: Vec<char>)
    requires
        from <= to <= text.len(),
    ensures
        r@ == text@.subrange(from as int, to as int),
{
    let mut r: Vec<char> = Vec::new();
    let mut i: usize = from;
    while i < to
        invariant
            from <= i <= to <= text.len(),
            r@ == text@.subrange(from as int, i as int),
        decreases to - i,
    {
        r.push(text[i]);
        i += 1;
    }
    r
}

/// Appends the characters of `more` to `text`.
pub fn append(text: &mut Vec<char>, more: &Vec<char>)
    ensures
        final(text)@ == old(text)@ + more@,
{
    let mut i: usize = 0;
    while i < more.len()
        invariant
            i <= more.len(),
            text@ == old(text)@ + more@.take(i as int),
        decreases more.len() - i,
    {
        text.push(more[i]);
        i += 1;
    }
    assert(more@.take(more.len() as int) == more@);
}

/// Appends the characters of `more` to `text`.
pub fn push_str(text: &mut Vec<char>, more: &str)
    ensures
        final(text)@ == old(text)@ + more@,
{
    let chars = chars_of(more);
    append(text, &chars);
}

/// `pattern` stands in `text` at index `at`.
pub open spec fn occurs_at(text: Seq<char>, pattern: Seq<char>, at: int) -> bool {
    &&& 0 <= at
    &&& at + pattern.len() <= text.len()
    &&& text.subrange(at, at + pattern.len()) == pattern
}

/// The index of the first occurrence of `pattern` in `text` at or after `from`.
pub open spec fn find_from(text: Seq<char>, pattern: Seq<char>, from: int) -> Option<int>
    decreases text.len() + 1 - from,
{
    if from < 0 || from + pattern.len() > text.len() {
        None
    } else if occurs_at(text, pattern, from) {
        Some(from)
    } else {
        find_from(text, pattern, from + 1)
    }
}

/// The index of the first occurrence of `pattern` in `text`.
pub open spec fn find_first(text: Seq<char>, pattern: Seq<char>) -> Option<int> {
    find_from(text, pattern, 0)
}

/// What [`find_from`] returns is the least matching index at or after `from`.
pub proof fn lemma_find_from(text: Seq<char>, pattern: Seq<char>, from: int)
    requires
        0 <= from,
    ensures
        match find_from(text, pattern, from) {
            Some(at) => from <= at && occurs_at(text, pattern, at) && forall|j: int|
                from <= j < at ==> !occurs_at(text, pattern, j),
            None => forall|j: int| from <= j ==> !occurs_at(text, pattern, j),
        },
    decreases text.len() + 1 - from,
{
    if from + pattern.len() <= text.len() && !occurs_at(text, pattern, from) {
        lemma_find_from(text, pattern, from + 1);
    }
}

/// Whether `pattern` stands in `text` at index `at`.
pub fn matches_at(text: &Vec<char>, pattern: &Vec<char>, at: usize) -> (r: bool)
    ensures
        r == occurs_at(text@, pattern@, at as int),
{
    if pattern.len() > text.len() || at > text.len() - pattern.len() {
        return false;
    }
    let mut i: usize = 0;
    while i < pattern.len()
        invariant
            i <= pattern.len(),
            at + pattern.len() <= text.len(),
            text@.subrange(at as int, at + i) == pattern@.take(i as int),
        decreases pattern.len() - i,
    {
        if text[at + i] != pattern[i] {
            assert(text@.subrange(at as int, at + pattern.len())[i as int] != pattern@[i as int]);
            return false;
        }
        assert(text@.subrange(at as int, at + i + 1) == text@.subrange(at as int, at + i).push(
            text@[at + i],
        ));
        assert(pattern@.take(i + 1) == pattern@.take(i as int).push(pattern@[i as int]));
        i += 1;
    }
    assert(pattern@.take(pattern.len() as int) == pattern@);
    true
}

/// Whether `text` begins with `prefix`.
pub fn starts_with(text: &Vec<char>, prefix: &Vec<char>) -> (r: bool)
    ensures
        r == prefix@.is_prefix_of(text@),
{
    let r = matches_at(text, prefix, 0);
    proof {
        if prefix@.len() <= text@.len() {
            assert(text@.subrange(0, prefix@.len() as int) == text@.take(prefix@.len() as int));
            if prefix@.is_prefix_of(text@) {
                assert(text@.take(prefix@.len() as int) == prefix@);
            }
        }
    }
    r
}

/// Whether `text` ends with `suffix`.
pub fn ends_with(text: &Vec<char>, suffix: &Vec<char>) -> (r: bool)
    ensures
        r == suffix@.is_suffix_of(text@),
{
    if suffix.len() > text.len() {
        return false;
    }
    let at = text.len() - suffix.len();
    let r = matches_at(text, suffix, at);
    proof {
        assert(text@.subrange(at as int, text@.len() as int) == text@.skip(at as int));
        if suffix@.is_suffix_of(text@) {
            assert(text@.skip(at as int) == suffix@);
        }
    }
    r
}

/// The index of the first occurrence of `pattern` in `text`, if there is one.
pub fn find(text: &Vec<char>, pattern: &Vec<char>) -> (r: Option<usize>)
    ensures
        r is Some <==> find_first(text@, pattern@) is Some,
        r matches Some(at) ==> find_first(text@, pattern@) == Some(at as int) && at
            + pattern.len() <= text.len(),
{
    if pattern.len() > text.len() {
        return None;
    }
    let last = text.len() - pattern.len();
    let mut i: usize = 0;
    loop
        invariant
            i <= last,
            last == text.len() - pattern.len(),
            find_first(text@, pattern@) == find_from(text@, pattern@, i as int),
        decreases last - i,
    {
        if matches_at(text, pattern, i) {
            return Some(i);
        }
        if i == last {
            assert(find_from(text@, pattern@, i + 1) is None);
            return None;
        }
        i += 1;
    }
}

/// The index of the last `c` in `text`.
pub open spec fn last_index_of(text: Seq<char>, c: char) -> Option<int>
    decreases text.len(),
{
    if text.len() == 0 {
        None
    } else if text.last() == c {
        Some(text.len() - 1)
    } else {
        last_index_of(text.drop_last(), c)
    }
}

/// What [`last_index_of`] returns is the greatest index that holds `c`.
pub proof fn lemma_last_index_of(text: Seq<char>, c: char)
    ensures
        match last_index_of(text, c) {
            Some(at) => 0 <= at < text.len() && text[at] == c && forall|j: int|
                at < j < text.len() ==> text[j] != c,
            None => forall|j: int| 0 <= j < text.len() ==> text[j] != c,
        },
    decreases text.len(),
{
    if text.len() > 0 && text.last() != c {
        lemma_last_index_of(text.drop_last(), c);
        assert forall|j: int| 0 <= j < text.len() - 1 implies text.drop_last()[j] == text[j] by {}
    }
}

/// The index of the last `c` among the first `end` characters of `text`.
pub fn rfind_char(text: &Vec<char>, end: usize, c: char) -> (r: Option<usize>)
    requires
        end <= text.len(),
    ensures
        r is Some <==> last_index_of(text@.take(end as int), c) is Some,
        r matches Some(at) ==> last_index_of(text@.take(end as int), c) == Some(at as int) && at
            < end,
{
    let mut i: usize = end;
    while i > 0
        invariant
            i <= end <= text.len(),
            last_index_of(text@.take(end as int), c) == last_index_of(text@.take(i as int), c),
        decreases i,
    {
        if text[i - 1] == c {
            return Some(i - 1);
        }
        assert(text@.take(i as int).drop_last() == text@.take(i - 1));
        i -= 1;
    }
    None
}

/// How many characters at the start of `text` are whitespace.
pub open spec fn leading_whitespace(text: Seq<char>) -> nat
    decreases text.len(),
{
    if text.len() > 0 && whitespace(text[0]) {
        1 + leading_whitespace(text.drop_first())
    } else {
        0
    }
}

/// The whitespace at the start of a text is whitespace, and what follows it
/// is not.
pub proof fn lemma_leading_whitespace(text: Seq<char>)
    ensures
        leading_whitespace(text) <= text.len(),
        forall|i: int| 0 <= i < leading_whitespace(text) ==> whitespace(#[trigger] text[i]),
        leading_whitespace(text) < text.len() ==> !whitespace(text[leading_whitespace(text) as int]),
    decreases text.len(),
{
    if text.len() > 0 && whitespace(text[0]) {
        let rest = text.drop_first();
        lemma_leading_whitespace(rest);
        assert forall|i: int| 0 <= i < leading_whitespace(text) implies whitespace(
            #[trigger] text[i],
        ) by {
            if i > 0 {
                assert(text[i] == rest[i - 1]);
            }
        }
        if leading_whitespace(text) < text.len() {
            assert(text[leading_whitespace(text) as int] == rest[leading_whitespace(rest) as int]);
        }
    }
}

/// How many characters the blank lines at the start of a text take. A blank
/// line holds nothing but whitespace and ends in a line feed, which counts
/// with it. Whitespace at the start of the first line that holds anything
/// else is no blank line, nor is whitespace that no line feed follows.
pub open spec fn blank_lines(text: Seq<char>) -> nat {
    match last_index_of(text.take(leading_whitespace(text) as int), '\n') {
        Some(at) => (at + 1) as nat,
        None => 0,
    }
}

/// `text` without the blank lines at its start.
pub open spec fn without_blank_lines(text: Seq<char>) -> Seq<char> {
    text.skip(blank_lines(text) as int)
}

/// The blank lines at the start of a text are whitespace and end in a line
/// feed, and the line after them holds something else than whitespace before
/// its line feed, if it has one.
pub proof fn lemma_blank_lines(text: Seq<char>)
    ensures
        blank_lines(text) <= leading_whitespace(text) <= text.len(),
        forall|i: int| 0 <= i < blank_lines(text) ==> whitespace(#[trigger] text[i]),
        blank_lines(text) > 0 ==> text[blank_lines(text) - 1] == '\n',
        forall|i: int| blank_lines(text) <= i < leading_whitespace(text) ==> text[i] != '\n',
{
    lemma_leading_whitespace(text);
    lemma_last_index_of(text.take(leading_whitespace(text) as int), '\n');
    assert forall|i: int| blank_lines(text) <= i < leading_whitespace(text) implies text[i]
        != '\n' by {
        assert(text.take(leading_whitespace(text) as int)[i] == text[i]);
    }
}

/// The index of the first character at or after `from` that stands after the
/// blank lines there.
pub fn skip_blank_lines(text: &Vec<char>, from: usize) -> (r: usize)
    requires
        from <= text.len(),
    ensures
        r == from + blank_lines(text@.skip(from as int)),
        from <= r <= text.len(),
        text@.skip(r as int) == without_blank_lines(text@.skip(from as int)),
{
    let ghost rest = text@.skip(from as int);
    let mut start: usize = from;
    let mut i: usize = from;
    assert(rest.take(0) == Seq::<char>::empty());
    while i < text.len() && is_whitespace(text[i])
        invariant
            from <= start <= i <= text.len(),
            rest == text@.skip(from as int),
            leading_whitespace(rest) == (i - from) + leading_whitespace(text@.skip(i as int)),
            match last_index_of(rest.take(i - from), '\n') {
                Some(at) => start == from + at + 1,
                None => start == from,
            },
        decreases text.len() - i,
    {
        proof {
            assert(text@.skip(i as int).drop_first() == text@.skip(i + 1));
            assert(rest.take(i - from + 1).drop_last() == rest.take(i - from));
            assert(rest.take(i - from + 1).last() == text@[i as int]);
        }
        if text[i] == '\n' {
            start = i + 1;
        }
        i += 1;
    }
    proof {
        assert(leading_whitespace(text@.skip(i as int)) == 0);
        assert(rest.skip(start - from) == text@.skip(start as int));
    }
    start
}

/// What separates the words of a text.
#[derive(Clone, Copy, Debug, PartialEq, Eq)]
pub enum Separator {
    /// The hyphen `-`
    Hyphen,
    /// Any whitespace character
    Whitespace,
}

impl Separator {
    /// Whether `c` is a separator of this kind.
    pub open spec fn matches(self, c: char) -> bool {
        match self {
            Separator::Hyphen => c == '-',
            Separator::Whitespace => whitespace(c),
        }
    }

    /// Whether `c` is a separator of this kind.
    pub fn is_match(&self, c: char) -> (r: bool)
        ensures
            r == self.matches(c),
    {
        match self {
            Separator::Hyphen => c == '-',
            Separator::Whitespace => is_whitespace(c),
        }
    }
}

/// The run of non-separators that `text` ends with.
pub open spec fn open_word(text: Seq<char>, sep: Separator) -> Seq<char>
    decreases text.len(),
{
    if text.len() == 0 || sep.matches(text.last()) {
        Seq::empty()
    } else {
        open_word(text.drop_last(), sep).push(text.last())
    }
}

/// The words of `text` that a separator has ended.
pub open spec fn closed_words(text: Seq<char>, sep: Separator) -> Seq<Seq<char>>
    decreases text.len(),
{
    if text.len() == 0 {
        Seq::empty()
    } else if sep.matches(text.last()) && open_word(text.drop_last(), sep).len() > 0 {
        closed_words(text.drop_last(), sep).push(open_word(text.drop_last(), sep))
    } else {
        closed_words(text.drop_last(), sep)
    }
}

/// The words of `text`: its maximal runs of non-separators, in order. This is
/// what splitting at every separator and dropping the empty pieces leaves.
pub open spec fn words(text: Seq<char>, sep: Separator) -> Seq<Seq<char>> {
    if open_word(text, sep).len() > 0 {
        closed_words(text, sep).push(open_word(text, sep))
    } else {
        closed_words(text, sep)
    }
}

/// The parts in order, with `glue` between each two neighbours.
pub open spec fn join(parts: Seq<Seq<char>>, glue: char) -> Seq<char>
    decreases parts.len(),
{
    if parts.len() == 0 {
        Seq::empty()
    } else if parts.len() == 1 {
        parts[0]
    } else {
        join(parts.drop_last(), glue).push(glue) + parts.last()
    }
}

/// The views of the items, in order.
pub open spec fn views<T: View>(items: Seq<T>) -> Seq<T::V> {
    Seq::new(items.len(), |i: int| items[i]@)
}

/// The characters of an optional text.
pub open spec fn opt_view(text: Option<String>) -> Option<Seq<char>> {
    match text {
        Some(t) => Some(t@),
        None => None,
    }
}

/// The texts of an optional list.
pub open spec fn opt_views(list: Option<Vec<String>>) -> Option<Seq<Seq<char>>> {
    match list {
        Some(l) => Some(views(l@)),
        None => None,
    }
}

/// A copy of an optional text.
pub fn clone_opt(text: &Option<String>) -> (r: Option<String>)
    ensures
        opt_view(r) == opt_view(*text),
{
    match text {
        Some(t) => Some(t.clone()),
        None => None,
    }
}

/// A copy of a list of texts.
pub fn clone_list(list: &Vec<String>) -> (r: Vec<String>)
    ensures
        views(r@) == views(list@),
{
    let mut r: Vec<String> = Vec::new();
    let mut i: usize = 0;
    while i < list.len()
        invariant
            i <= list.len(),
            r@.len() == i,
            views(r@) == views(list@.take(i as int)),
        decreases list.len() - i,
    {
        let ghost before = r@;
        let copy = list[i].clone();
        r.push(copy);
        assert(views(r@) =~= views(list@.take(i + 1))) by {
            assert forall|k: int| 0 <= k < r@.len() implies views(r@)[k] == views(
                list@.take(i + 1),
            )[k] by {
                if k < i {
                    assert(r@[k] == before[k]);
                    assert(views(before)[k] == views(list@.take(i as int))[k]);
                }
            }
        }
        i += 1;
    }
    assert(list@.take(list.len() as int) == list@);
    r
}

/// A copy of an optional list of texts.
pub fn clone_opt_list(list: &Option<Vec<String>>) -> (r: Option<Vec<String>>)
    ensures
        opt_views(r) == opt_views(*list),
{
    match list {
        Some(l) => Some(clone_list(l)),
        None => None,
    }
}

/// Splits `text` into its words.
pub fn split_words(text: &Vec<char>, sep: Separator) -> (r: Vec<Vec<char>>)
    ensures
        views(r@) == words(text@, sep),
{
    let mut done: Vec<Vec<char>> = Vec::new();
    let mut word: Vec<char> = Vec::new();
    let mut i: usize = 0;
    while i < text.len()
        invariant
            i <= text.len(),
            views(done@) == closed_words(text@.take(i as int), sep),
            word@ == open_word(text@.take(i as int), sep),
        decreases text.len() - i,
    {
        let c = text[i];
        proof {
            assert(text@.take(i + 1).drop_last() == text@.take(i as int));
        }
        if sep.is_match(c) {
            if word.len() > 0 {
                let ghost before = views(done@);
                done.push(word);
                assert(views(done@) == before.push(word@));
                word = Vec::new();
            }
        } else {
            word.push(c);
        }
        i += 1;
    }
    assert(text@.take(text.len() as int) == text@);
    if word.len() > 0 {
        let ghost before = views(done@);
        done.push(word);
        assert(views(done@) == before.push(word@));
    }
    done
}

/// Joins the parts with `glue` between each two neighbours.
pub fn join_words(parts: &Vec<Vec<char>>, glue: char) -> (r: Vec<char>)
    ensures
        r@ == join(views(parts@), glue),
{
    let mut r: Vec<char> = Vec::new();
    let mut i: usize = 0;
    while i < parts.len()
        invariant
            i <= parts.len(),
            r@ == join(views(parts@).take(i as int), glue),
        decreases parts.len() - i,
    {
        proof {
            assert(views(parts@).take(i + 1).drop_last() == views(parts@).take(i as int));
            assert(views(parts@).take(i + 1).last() == parts@[i as int]@);
        }
        if i > 0 {
            r.push(glue);
        }
        append(&mut r, &parts[i]);
        i += 1;
    }
    assert(views(parts@).take(parts.len() as int) == views(parts@));
    r
}

/// The decimal digit for `d`.
pub open spec fn digit_char(d: nat) -> char
    recommends
        d < 10,
{
    (48 + d) as u8 as char
}

/// The decimal notation of `n`, without leading zeros.
pub open spec fn decimal(n: nat) -> Seq<char>
    decreases n,
{
    if n < 10 {
        seq![digit_char(n)]
    } else {
        decimal(n / 10).push(digit_char(n % 10))
    }
}

/// Writes `n` in decimal notation.
pub fn decimal_chars(n: u32) -> (r: Vec<char>)
    ensures
        r@ == decimal(n as nat),
    decreases n,
{
    let d: u8 = (n % 10) as u8;
    let c: char = (48 + d) as char;
    if n < 10 {
        let mut r: Vec<char> = Vec::new();
        r.push(c);
        r
    } else {
        let mut r = decimal_chars(n / 10);
        r.push(c);
        r
    }
}

/// How many bytes the UTF-8 encoding of `c` takes.
pub open spec fn utf8_width(c: char) -> nat {
    if (c as u32) < 0x80 {
        1
    } else if (c as u32) < 0x800 {
        2
    } else if (c as u32) < 0x10000 {
        3
    } else {
        4
    }
}

/// How many bytes the UTF-8 encoding of `text` takes.
pub open spec fn utf8_len(text: Seq<char>) -> nat
    decreases text.len(),
{
    if text.len() == 0 {
        0
    } else {
        utf8_len(text.drop_last()) + utf8_width(text.last())
    }
}

/// The encoded length of a text is that of its first character and of the
/// rest.
pub proof fn lemma_utf8_len_first(text: Seq<char>)
    requires
        text.len() > 0,
    ensures
        utf8_len(text) == utf8_width(text.first()) + utf8_len(text.drop_first()),
    decreases text.len(),
{
    if text.len() == 1 {
        assert(text.drop_last() == text.drop_first());
        assert(utf8_len(text.drop_first()) == 0);
    } else {
        lemma_utf8_len_first(text.drop_last());
        assert(text.drop_last().drop_first() == text.drop_first().drop_last());
        assert(text.drop_last().first() == text.first());
        assert(text.drop_first().last() == text.last());
    }
}

/// [`utf8_len`] is the number of bytes of the UTF-8 encoding, which is what
/// `str::len` counts.
pub proof fn lemma_utf8_len_encoded(text: Seq<char>)
    ensures
        utf8_len(text) == vstd::utf8::encode_utf8(text).len(),
    decreases text.len(),
{
    if text.len() > 0 {
        lemma_utf8_len_first(text);
        lemma_utf8_len_encoded(text.drop_first());
        vstd::utf8::char_is_scalar(text[0]);
    }
}

/// The encoded length of two texts in a row is the sum of their lengths.
pub proof fn lemma_utf8_len_add(a: Seq<char>, b: Seq<char>)
    ensures
        utf8_len(a + b) == utf8_len(a) + utf8_len(b),
    decreases b.len(),
{
    if b.len() == 0 {
        assert(a + b == a);
    } else {
        lemma_utf8_len_add(a, b.drop_last());
        assert((a + b).drop_last() == a + b.drop_last());
        assert((a + b).last() == b.last());
    }
}

/// How many bytes the UTF-8 encoding of `c` takes.
pub fn char_width(c: char) -> (r: usize)
    ensures
        r == utf8_width(c),
        1 <= r <= 4,
{
    let code: u32 = c as u32;
    if code < 0x80 {
        1
    } else if code < 0x800 {
        2
    } else if code < 0x10000 {
        3
    } else {
        4
    }
}

} // verus!
