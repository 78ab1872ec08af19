//! Markdown rendering: HTML conversion, the heading outline and slugs.

pub mod htmx;
pub mod oob;

use vstd::prelude::*;
use crate::markdown::{
    markdown_events, markdown_html, parse_events, render_html, MdEvent, HEADING_ATTRIBUTES,
    PAGE_EXTENSIONS,
};
use crate::text::{
    alphanumeric, append, chars_of, closed_words, is_whitespace, join, join_words, lowercased,
    open_word, str_eq,
    split_words, string_of, to_lowercase, views, whitespace, words, Separator,
};

verus! {

/// Convert Markdown content to HTML, with tables, footnotes, strikethrough,
/// task lists and heading attributes turned on.
pub fn markdown_to_html(markdown: &str) -> (r: String)
    ensures
        r@ == markdown_html(markdown@, PAGE_EXTENSIONS),
{
    render_html(markdown, PAGE_EXTENSIONS)
}

/// What a pass over the events of a document has read of its headings.
pub struct HeadingScan {
    /// The headings that have ended, each with its level and text
    pub done: Seq<(u8, Seq<char>)>,
    /// The heading that has begun and not ended, with the text read so far
    pub open: Option<(u8, Seq<char>)>,
}

/// The scan after one more event: a heading's start opens a heading with no
/// text, text and inline code extend the open heading, and a heading's end
/// closes it.
pub open spec fn heading_step(scan: HeadingScan, event: MdEvent) -> HeadingScan {
    match event {
        MdEvent::HeadingStart(level) => HeadingScan {
            done: scan.done,
            open: Some((level, Seq::empty())),
        },
        MdEvent::HeadingEnd => match scan.open {
            Some(heading) => HeadingScan { done: scan.done.push(heading), open: None },
            None => scan,
        },
        MdEvent::Text(text) => match scan.open {
            Some(heading) => HeadingScan {
                done: scan.done,
                open: Some((heading.0, heading.1 + text@)),
            },
            None => scan,
        },
        MdEvent::Code(text) => match scan.open {
            Some(heading) => HeadingScan {
                done: scan.done,
                open: Some((heading.0, heading.1 + text@)),
            },
            None => scan,
        },
        _ => scan,
    }
}

/// The scan after all of `events`.
pub open spec fn heading_scan(events: Seq<MdEvent>) -> HeadingScan
    decreases events.len(),
{
    if events.len() == 0 {
        HeadingScan { done: Seq::empty(), open: None }
    } else {
        heading_step(heading_scan(events.drop_last()), events.last())
    }
}

/// The headings of a document in document order, each with its level and
/// the text of its text and code spans.
pub open spec fn outline(events: Seq<MdEvent>) -> Seq<(u8, Seq<char>)> {
    heading_scan(events).done
}

/// Where every heading begins at a level from 1 to 6, every heading of the
/// outline has such a level.
pub proof fn lemma_outline_levels(events: Seq<MdEvent>)
    requires
        forall|i: int| 0 <= i < events.len() ==> (#[trigger] events[i]).level_in_range(),
    ensures
        forall|k: int|
            0 <= k < outline(events).len() ==> 1 <= (#[trigger] outline(events)[k]).0 <= 6,
        heading_scan(events).open matches Some(heading) ==> 1 <= heading.0 <= 6,
    decreases events.len(),
{
    if events.len() > 0 {
        let front = events.drop_last();
        assert forall|i: int| 0 <= i < front.len() implies (#[trigger] front[i]).level_in_range() by {
            assert(front[i] == events[i]);
        }
        lemma_outline_levels(front);
        assert(events[events.len() - 1].level_in_range());
        let before = heading_scan(front);
        assert forall|k: int| 0 <= k < outline(events).len() implies 1 <= (#[trigger] outline(
            events,
        )[k]).0 <= 6 by {
            if k < before.done.len() {
                assert(outline(events)[k] == outline(front)[k]);
            }
        }
    }
}

/// Each heading with the slug of its text as its anchor.
pub open spec fn anchored(headings: Seq<(u8, Seq<char>)>) -> Seq<(u8, Seq<char>, Seq<char>)> {
    Seq::new(headings.len(), |i: int| (headings[i].0, headings[i].1, slug(headings[i].1)))
}

/// Reads the headings off the events of a document.
pub fn outline_of(events: &Vec<MdEvent>) -> (r: Vec<(u8, Vec<char>)>)
    ensures
        views(r@) == outline(events@),
{
    let mut done: Vec<(u8, Vec<char>)> = Vec::new();
    let mut in_heading = false;
    let mut level: u8 = 0;
    let mut text: Vec<char> = Vec::new();
    let mut i: usize = 0;
    while i < events.len()
        invariant
            i <= events.len(),
            views(done@) == heading_scan(events@.take(i as int)).done,
            in_heading <==> heading_scan(events@.take(i as int)).open is Some,
            in_heading ==> heading_scan(events@.take(i as int)).open == Some((level, text@)),
        decreases events.len() - i,
    {
        proof {
            assert(events@.take(i + 1).drop_last() == events@.take(i as int));
        }
        match &events[i] {
            MdEvent::HeadingStart(l) => {
                in_heading = true;
                level = *l;
                text = Vec::new();
            },
            MdEvent::HeadingEnd => {
                if in_heading {
                    let ghost before = views(done@);
                    done.push((level, text));
                    assert(views(done@) == before.push((level, text@)));
                    text = Vec::new();
                    in_heading = false;
                }
            },
            MdEvent::Text(t) => {
                if in_heading {
                    let more = chars_of(t.as_str());
                    append(&mut text, &more);
                }
            },
            MdEvent::Code(t) => {
                if in_heading {
                    let more = chars_of(t.as_str());
                    append(&mut text, &more);
                }
            },
            _ => {},
        }
        i += 1;
    }
    assert(events@.take(events.len() as int) == events@);
    done
}

/// The headings that `events` hold, each as level, text and anchor.
pub fn headings_from_events(events: &Vec<MdEvent>) -> (r: Vec<(u8, String, String)>)
    ensures
        views(r@) == anchored(outline(events@)),
{
    let found = outline_of(events);
    let mut r: Vec<(u8, String, String)> = Vec::new();
    let mut i: usize = 0;
    while i < found.len()
        invariant
            i <= found.len(),
            r@.len() == i,
            views(r@) == anchored(views(found@)).take(i as int),
        decreases found.len() - i,
    {
        let text = string_of(&found[i].1);
        let anchor = slugify(text.as_str());
        let ghost before = views(r@);
        r.push((found[i].0, text, anchor));
        assert(views(r@) == before.push((found@[i as int].0, text@, anchor@)));
        assert(anchored(views(found@)).take(i + 1) == anchored(views(found@)).take(i as int).push(
            anchored(views(found@))[i as int],
        ));
        i += 1;
    }
    assert(anchored(views(found@)).take(found.len() as int) == anchored(views(found@)));
    r
}

/// Extract headings from Markdown for table of contents: one entry per
/// heading, in document order, as (level, text, anchor).
pub fn extract_headings(markdown: &str) -> (r: Vec<(u8, String, String)>)
    ensures
        views(r@) == anchored(outline(markdown_events(markdown@, HEADING_ATTRIBUTES))),
        forall|i: int| 0 <= i < r@.len() ==> 1 <= (#[trigger] r@[i]).0 <= 6,
{
    let events = parse_events(markdown, HEADING_ATTRIBUTES);
    let r = headings_from_events(&events);
    proof {
        lemma_outline_levels(events@);
        assert(views(r@).len() == r@.len());
        assert(anchored(outline(events@)).len() == outline(events@).len());
        assert forall|i: int| 0 <= i < r@.len() implies 1 <= (#[trigger] r@[i]).0 <= 6 by {
            assert(views(r@)[i].0 == r@[i].0);
            assert(anchored(outline(events@))[i].0 == outline(events@)[i].0);
        }
    }
    r
}

/// What one character of a lowercased text becomes in a slug: an alphanumeric
/// character stays, whitespace, `-` and `_` become a hyphen, and everything
/// else is dropped.
pub open spec fn slug_char(c: char) -> Option<char> {
    if alphanumeric(c) {
        Some(c)
    } else if whitespace(c) || c == '-' || c == '_' {
        Some('-')
    } else {
        None
    }
}

/// The characters of `text`, each replaced or dropped as [`slug_char`] says.
pub open spec fn slug_chars(text: Seq<char>) -> Seq<char>
    decreases text.len(),
{
    if text.len() == 0 {
        Seq::empty()
    } else {
        match slug_char(text.last()) {
            Some(c) => slug_chars(text.drop_last()).push(c),
            None => slug_chars(text.drop_last()),
        }
    }
}

/// The slug of `text`: lowercase it, replace or drop each character, split at
/// the hyphens, drop the empty pieces and join the rest with single hyphens.
pub open spec fn slug(text: Seq<char>) -> Seq<char> {
    join(words(slug_chars(lowercased(text)), Separator::Hyphen), '-')
}

/// Convert text to a URL-safe slug.
pub fn slugify(text: &str) -> (r: String)
    ensures
        r@ == slug(text@),
{
    let lower = to_lowercase(text);
    let chars = chars_of(lower.as_str());
    let mut kept: Vec<char> = Vec::new();
    let mut i: usize = 0;
    while i < chars.len()
        invariant
            i <= chars.len(),
            kept@ == slug_chars(chars@.take(i as int)),
        decreases chars.len() - i,
    {
        let c = chars[i];
        proof {
            assert(chars@.take(i + 1).drop_last() == chars@.take(i as int));
        }
        if c.is_alphanumeric() {
            kept.push(c);
        } else if is_whitespace(c) || c == '-' || c == '_' {
            kept.push('-');
        }
        i += 1;
    }
    assert(chars@.take(chars.len() as int) == chars@);
    let parts = split_words(&kept, Separator::Hyphen);
    let joined = join_words(&parts, '-');
    string_of(&joined)
}

/// The slug of `text`, where lowercasing leaves that slug as it is, and
/// nothing else. A slug that comes back is its own slug.
pub fn stable_slug(text: &str) -> (r: Option<String>)
    ensures
        match r {
            Some(found) => found@ == slug(text@) && lowercased(found@) == found@ && slug(found@)
                == found@,
            None => lowercased(slug(text@)) != slug(text@),
        },
{
    let found = slugify(text);
    let lower = to_lowercase(found.as_str());
    if str_eq(lower.as_str(), found.as_str()) {
        proof {
            lemma_slug_idempotent(text@);
        }
        Some(found)
    } else {
        None
    }
}

/// Every character of `text` is alphanumeric or a hyphen.
pub open spec fn slug_alphabet(text: Seq<char>) -> bool {
    forall|k: int| 0 <= k < text.len() ==> alphanumeric(#[trigger] text[k]) || text[k] == '-'
}

proof fn lemma_slug_chars_alphabet(text: Seq<char>)
    ensures
        slug_alphabet(slug_chars(text)),
    decreases text.len(),
{
    if text.len() > 0 {
        lemma_slug_chars_alphabet(text.drop_last());
    }
}

proof fn lemma_slug_chars_fixed(text: Seq<char>)
    requires
        slug_alphabet(text),
    ensures
        slug_chars(text) == text,
    decreases text.len(),
{
    if text.len() > 0 {
        assert(slug_alphabet(text.drop_last())) by {
            assert forall|k: int| 0 <= k < text.drop_last().len() implies alphanumeric(
                #[trigger] text.drop_last()[k],
            ) || text.drop_last()[k] == '-' by {
                assert(text.drop_last()[k] == text[k]);
            }
        }
        lemma_slug_chars_fixed(text.drop_last());
        assert(alphanumeric(text[text.len() - 1]) || text[text.len() - 1] == '-');
        assert(text.drop_last().push(text.last()) == text);
    }
}

/// The words of a text are not empty, hold no hyphen, and stay within the
/// slug alphabet where the text does.
proof fn lemma_words_of_slug_alphabet(text: Seq<char>)
    requires
        slug_alphabet(text),
    ensures
        slug_alphabet(open_word(text, Separator::Hyphen)),
        forall|k: int|
            0 <= k < open_word(text, Separator::Hyphen).len() ==> #[trigger] open_word(
                text,
                Separator::Hyphen,
            )[k] != '-',
        plain_words(closed_words(text, Separator::Hyphen)),
        plain_words(words(text, Separator::Hyphen)),
    decreases text.len(),
{
    if text.len() > 0 {
        assert(slug_alphabet(text.drop_last())) by {
            assert forall|k: int| 0 <= k < text.drop_last().len() implies alphanumeric(
                #[trigger] text.drop_last()[k],
            ) || text.drop_last()[k] == '-' by {
                assert(text.drop_last()[k] == text[k]);
            }
        }
        lemma_words_of_slug_alphabet(text.drop_last());
        assert(alphanumeric(text[text.len() - 1]) || text[text.len() - 1] == '-');
    }
}

/// Every part is a non-empty run of alphanumeric characters other than the hyphen.
pub open spec fn plain_words(parts: Seq<Seq<char>>) -> bool {
    forall|i: int|
        0 <= i < parts.len() ==> (#[trigger] parts[i]).len() > 0 && slug_alphabet(parts[i])
            && forall|k: int| 0 <= k < parts[i].len() ==> #[trigger] parts[i][k] != '-'
}

/// A run without hyphens, appended to a text, extends the text's open word
/// and closes none.
proof fn lemma_append_run(text: Seq<char>, run: Seq<char>)
    requires
        forall|k: int| 0 <= k < run.len() ==> #[trigger] run[k] != '-',
    ensures
        open_word(text + run, Separator::Hyphen) == open_word(text, Separator::Hyphen) + run,
        closed_words(text + run, Separator::Hyphen) == closed_words(text, Separator::Hyphen),
    decreases run.len(),
{
    if run.len() == 0 {
        assert(text + run == text);
        assert(open_word(text, Separator::Hyphen) + run == open_word(text, Separator::Hyphen));
    } else {
        let shorter = run.drop_last();
        lemma_append_run(text, shorter);
        assert((text + run).drop_last() == text + shorter);
        assert((text + run).last() == run.last());
        assert(run[run.len() - 1] != '-');
        assert((open_word(text, Separator::Hyphen) + shorter).push(run.last()) == open_word(
            text,
            Separator::Hyphen,
        ) + run);
    }
}

/// Splitting what [`join`] made of plain words gives the words back.
proof fn lemma_words_of_join(parts: Seq<Seq<char>>)
    requires
        plain_words(parts),
    ensures
        words(join(parts, '-'), Separator::Hyphen) == parts,
        slug_alphabet(join(parts, '-')),
    decreases parts.len(),
{
    let empty = Seq::<char>::empty();
    if parts.len() == 0 {
    } else if parts.len() == 1 {
        lemma_append_run(empty, parts[0]);
        assert(empty + parts[0] == parts[0]);
        assert(words(parts[0], Separator::Hyphen) == parts);
    } else {
        let front = parts.drop_last();
        let last = parts.last();
        assert(plain_words(front)) by {
            assert forall|i: int| 0 <= i < front.len() implies (#[trigger] front[i]).len() > 0
                && slug_alphabet(front[i]) && forall|k: int|
                0 <= k < front[i].len() ==> #[trigger] front[i][k] != '-' by {
                assert(front[i] == parts[i]);
            }
        }
        lemma_words_of_join(front);
        let head = join(front, '-').push('-');
        assert(head.drop_last() == join(front, '-'));
        assert(open_word(head, Separator::Hyphen) == empty);
        assert(closed_words(head, Separator::Hyphen) == front);
        lemma_append_run(head, last);
        assert(empty + last == last);
        assert(parts[parts.len() - 1].len() > 0);
        assert(front.push(last) == parts);
        assert(slug_alphabet(join(parts, '-'))) by {
            let whole = join(parts, '-');
            assert forall|k: int| 0 <= k < whole.len() implies alphanumeric(#[trigger] whole[k])
                || whole[k] == '-' by {
                if k < head.len() - 1 {
                    assert(whole[k] == join(front, '-')[k]);
                } else if k == head.len() - 1 {
                } else {
                    assert(whole[k] == last[k - head.len()]);
                    assert(slug_alphabet(parts[parts.len() - 1]));
                }
            }
        }
    }
}

/// Slugs are fixed points: the slug of a slug is that slug, for every text
/// whose slug lowercasing leaves unchanged.
pub proof fn lemma_slug_idempotent(text: Seq<char>)
    requires
        lowercased(slug(text)) == slug(text),
    ensures
        slug(slug(text)) == slug(text),
{
    let kept = slug_chars(lowercased(text));
    let parts = words(kept, Separator::Hyphen);
    lemma_slug_chars_alphabet(lowercased(text));
    lemma_words_of_slug_alphabet(kept);
    lemma_words_of_join(parts);
    lemma_slug_chars_fixed(join(parts, '-'));
}

} // verus!
