//! Reading an assistant's reply: the prose and the fenced code blocks of a
//! text in Markdown.
//!
//! Fences are taken as they come: the text between the first and the
//! second fence is code, the text between the second and the third is
//! prose, and so on; a fence without a partner opens a block that runs to
//! the end.

use vstd::prelude::*;
use vstd::string::*;
use crate::text::{
    chars_of,
    find_from,
    first_from,
    is_first_from,
    lemma_first_is_unique,
    occurs_at,
    slice_text,
    starts_with_at,
    trim,
    trim_bounds,
    trim_start,
    trimmed,
};

verus! {

/// One piece of a reply.
#[derive(Debug, PartialEq)]
pub enum TextSegment {
    /// Prose, as written.
    Text(String),
    /// The content of a code block, without its language tag and trimmed.
    Code(String),
}

/// Mathematical value of a [`TextSegment`].
pub enum SegmentView {
    Text(Seq<char>),
    Code(Seq<char>),
}

impl View for TextSegment {
    type V = SegmentView;

    open spec fn view(&self) -> SegmentView {
        match self {
            TextSegment::Text(text) => SegmentView::Text(text@),
            TextSegment::Code(code) => SegmentView::Code(code@),
        }
    }
}

/// Mathematical value of a list of segments.
pub open spec fn segments_view(segments: Seq<TextSegment>) -> Seq<SegmentView> {
    segments.map_values(|s: TextSegment| s@)
}

/// The fence of a code block: three backticks.
pub open spec fn fence() -> Seq<char> {
    seq!['`', '`', '`']
}

/// The language tag that a code block may begin with.
pub open spec fn language_tag() -> Seq<char> {
    seq!['p', 'y', 't', 'h', 'o', 'n']
}

/// A line feed.
pub open spec fn line_feed() -> Seq<char> {
    seq!['\n']
}

/// The parts of `text` between the occurrences of `separator`, found from
/// left to right without overlap. A text without the separator is one part.
pub open spec fn split_on(text: Seq<char>, separator: Seq<char>) -> Seq<Seq<char>>
    decreases text.len(),
{
    let found = first_from(text, separator, 0);
    if separator.len() > 0 && found is Some && 0 <= found->0 && found->0 + separator.len()
        <= text.len() {
        seq![text.take(found->0)] + split_on(text.skip(found->0 + separator.len()), separator)
    } else {
        seq![text]
    }
}

/// `text` with `with` in place of each occurrence of `word`, found from
/// left to right without overlap. An empty word occurs nowhere.
pub open spec fn replaced(text: Seq<char>, word: Seq<char>, with: Seq<char>) -> Seq<char>
    decreases text.len(),
{
    let found = first_from(text, word, 0);
    if word.len() > 0 && found is Some && 0 <= found->0 && found->0 + word.len() <= text.len() {
        text.take(found->0) + with + replaced(text.skip(found->0 + word.len()), word, with)
    } else {
        text
    }
}

/// `text` without the occurrences of `word`, found from left to right
/// without overlap.
pub open spec fn without(text: Seq<char>, word: Seq<char>) -> Seq<char> {
    replaced(text, word, Seq::empty())
}

/// `text` without the first occurrence of `word`.
pub open spec fn without_first(text: Seq<char>, word: Seq<char>) -> Seq<char> {
    match first_from(text, word, 0) {
        Some(at) => text.take(at) + text.skip(at + word.len()),
        None => text,
    }
}

/// `text` begins with `prefix`.
pub open spec fn begins_with(text: Seq<char>, prefix: Seq<char>) -> bool {
    occurs_at(text, prefix, 0)
}

/// The content of a code block: where the block begins with the language
/// tag, after white space or none, the first occurrence of the tag is
/// taken out; what is left is trimmed.
pub open spec fn code_of(part: Seq<char>) -> Seq<char> {
    trim(
        if begins_with(trim_start(part), language_tag()) {
            without_first(part, language_tag())
        } else {
            part
        },
    )
}

/// The segment of the part at position `index` between fences: none for a
/// part of white space alone, prose at an even position, code at an odd
/// one.
pub open spec fn segment_of(part: Seq<char>, index: int) -> Option<SegmentView> {
    if trim(part).len() == 0 {
        None
    } else if index % 2 == 0 {
        Some(SegmentView::Text(part))
    } else {
        Some(SegmentView::Code(code_of(part)))
    }
}

/// The segments of `parts`, of which the first is at position `index`.
pub open spec fn segments_from(parts: Seq<Seq<char>>, index: int) -> Seq<SegmentView>
    decreases parts.len(),
{
    if parts.len() == 0 {
        Seq::empty()
    } else {
        let rest = segments_from(parts.drop_first(), index + 1);
        match segment_of(parts[0], index) {
            Some(segment) => seq![segment] + rest,
            None => rest,
        }
    }
}

/// The segments of a reply.
pub open spec fn markdown_segments(text: Seq<char>) -> Seq<SegmentView> {
    segments_from(split_on(text, fence()), 0)
}

/// An occurrence in the rest of a text is an occurrence in the text.
pub proof fn lemma_occurs_in_rest(text: Seq<char>, word: Seq<char>, from: int, at: int)
    requires
        0 <= from <= text.len(),
    ensures
        occurs_at(text.skip(from), word, at) == (0 <= at && occurs_at(text, word, from + at)),
{
    if 0 <= at && from + at + word.len() <= text.len() {
        assert(text.skip(from).subrange(at, at + word.len()) =~= text.subrange(
            from + at,
            from + at + word.len(),
        ));
    }
}

/// The first occurrence in the rest of a text, from a search in the text.
pub proof fn lemma_first_in_rest(text: Seq<char>, word: Seq<char>, from: int, found: Option<int>)
    requires
        0 <= from <= text.len(),
        match found {
            Some(at) => is_first_from(text, word, from, at),
            None => forall|k: int| from <= k ==> !occurs_at(text, word, k),
        },
    ensures
        first_from(text.skip(from), word, 0) == match found {
            Some(at) => Some(at - from),
            None => None,
        },
{
    let rest = text.skip(from);
    match found {
        Some(at) => {
            lemma_occurs_in_rest(text, word, from, at - from);
            assert forall|k: int| 0 <= k < at - from implies !occurs_at(rest, word, k) by {
                lemma_occurs_in_rest(text, word, from, k);
            }
            assert(is_first_from(rest, word, 0, at - from));
            let chosen = choose|c: int| is_first_from(rest, word, 0, c);
            lemma_first_is_unique(rest, word, 0, at - from, chosen);
        },
        None => {
            assert forall|k: int| !is_first_from(rest, word, 0, k) by {
                lemma_occurs_in_rest(text, word, from, k);
            }
        },
    }
}

/// The fence as characters.
fn fence_chars() -> (chars: Vec<char>)
    ensures
        chars@ == fence(),
{
    let mut chars: Vec<char> = Vec::new();
    chars.push('`');
    chars.push('`');
    chars.push('`');
    assert(chars@ =~= fence());
    chars
}

/// The language tag as characters.
fn tag_chars() -> (chars: Vec<char>)
    ensures
        chars@ == language_tag(),
{
    let mut chars: Vec<char> = Vec::new();
    chars.push('p');
    chars.push('y');
    chars.push('t');
    chars.push('h');
    chars.push('o');
    chars.push('n');
    assert(chars@ =~= language_tag());
    chars
}

/// Takes the first occurrence of `word` out of `text`.
pub fn remove_first(text: &str, word: &Vec<char>) -> (rest: String)
    ensures
        rest@ == without_first(text@, word@),
{
    let chars = chars_of(text);
    let total = chars.len();
    match find_from(&chars, word, 0) {
        Some(at) => {
            assert(occurs_at(chars@, word@, at as int));
            let mut rest = slice_text(text, 0, at);
            let tail = slice_text(text, at + word.len(), total);
            rest.append(tail.as_str());
            assert(rest@ =~= text@.take(at as int) + text@.skip(at + word.len()));
            rest
        },
        None => text.to_owned(),
    }
}

/// The content of a code block.
pub fn code_content(part: &str) -> (code: String)
    ensures
        code@ == code_of(part@),
{
    let chars = chars_of(part);
    let tag = tag_chars();
    let (a, _b) = trim_bounds(&chars, 0, chars.len());
    assert(chars@.subrange(0, chars.len() as int) =~= part@);
    let tagged = starts_with_at(&chars, &tag, a);
    proof {
        assert(part@.subrange(a as int, chars.len() as int) =~= part@.skip(a as int));
        lemma_occurs_in_rest(part@, tag@, a as int, 0);
    }
    if tagged {
        let stripped = remove_first(part, &tag);
        trimmed(stripped.as_str())
    } else {
        trimmed(part)
    }
}

/// The segment of one part between fences.
pub fn segment_for(part: String, index: usize) -> (segment: Option<TextSegment>)
    ensures
        match segment {
            Some(s) => segment_of(part@, index as int) == Some(s@),
            None => segment_of(part@, index as int) is None,
        },
{
    let chars = chars_of(part.as_str());
    let (a, b) = trim_bounds(&chars, 0, chars.len());
    assert(chars@.subrange(0, chars.len() as int) =~= part@);
    if a == b {
        assert(chars@.subrange(a as int, b as int).len() == 0);
        None
    } else if index % 2 == 0 {
        Some(TextSegment::Text(part))
    } else {
        Some(TextSegment::Code(code_content(part.as_str())))
    }
}

/// Splits a reply into prose and code. Parts of white space alone are left
/// out; a code block loses its language tag and is trimmed.
pub fn parse_markdown_segments(text: &str) -> (segments: Vec<TextSegment>)
    ensures
        segments_view(segments@) == markdown_segments(text@),
{
    let chars = chars_of(text);
    let mark = fence_chars();
    let mut segments: Vec<TextSegment> = Vec::new();
    let mut from: usize = 0;
    let mut index: usize = 0;
    let mut done = false;
    assert(text@.skip(0) =~= text@);
    assert(segments_view(segments@) =~= Seq::empty());
    while !done
        invariant
            chars@ == text@,
            mark@ == fence(),
            from <= chars.len(),
            index <= from,
            !done ==> markdown_segments(text@) == segments_view(segments@) + segments_from(
                split_on(text@.skip(from as int), fence()),
                index as int,
            ),
            done ==> markdown_segments(text@) == segments_view(segments@),
        decreases chars.len() - from + (if done { 0int } else { 1int }),
    {
        let ghost rest = text@.skip(from as int);
        let ghost before = segments_view(segments@);
        let found = find_from(&chars, &mark, from);
        proof {
            lemma_first_in_rest(
                text@,
                fence(),
                from as int,
                match found {
                    Some(at) => Some(at as int),
                    None => None,
                },
            );
        }
        let end: usize = match found {
            Some(at) => at,
            None => chars.len(),
        };
        let part = slice_text(text, from, end);
        let ghost piece = part@;
        let segment = segment_for(part, index);
        match segment {
            Some(s) => {
                segments.push(s);
                assert(segments_view(segments@) =~= before + seq![s@]);
            },
            None => {},
        }
        proof {
            let parts = split_on(rest, fence());
            let later = segments_from(parts.drop_first(), index + 1);
            match found {
                Some(at) => {
                    assert(occurs_at(text@, fence(), at as int));
                    assert(rest.take(at - from) =~= piece);
                    assert(rest.skip(at - from + 3) =~= text@.skip(at + 3));
                    assert(parts == seq![piece] + split_on(text@.skip(at + 3), fence()));
                    assert(parts.drop_first() =~= split_on(text@.skip(at + 3), fence()));
                },
                None => {
                    assert(rest =~= piece);
                    assert(parts == seq![piece]);
                    assert(parts.drop_first() =~= Seq::<Seq<char>>::empty());
                    assert(later =~= Seq::<SegmentView>::empty());
                },
            }
            assert(parts[0] == piece);
            assert(segments_from(parts, index as int) == match segment_of(piece, index as int) {
                Some(sv) => seq![sv] + later,
                None => later,
            });
            assert(before + segments_from(parts, index as int) =~= segments_view(segments@)
                + later);
        }
        match found {
            Some(at) => {
                from = at + 3;
                index = index + 1;
            },
            None => {
                done = true;
            },
        }
    }
    segments
}

/// The first code block among `segments`, if there is one.
pub open spec fn first_code_of(segments: Seq<SegmentView>) -> Option<Seq<char>>
    decreases segments.len(),
{
    if segments.len() == 0 {
        None
    } else {
        match segments[0] {
            SegmentView::Code(code) => Some(code),
            SegmentView::Text(_) => first_code_of(segments.drop_first()),
        }
    }
}

/// The script that a reply proposes: the content of its first code block.
/// A reply without a code block is plain conversation.
pub fn first_code_block(text: &str) -> (code: Option<String>)
    ensures
        match code {
            Some(c) => first_code_of(markdown_segments(text@)) == Some(c@),
            None => first_code_of(markdown_segments(text@)) is None,
        },
{
    let segments = parse_markdown_segments(text);
    let ghost all = segments_view(segments@);
    let mut i: usize = 0;
    assert(all.skip(0) =~= all);
    while i < segments.len()
        invariant
            i <= segments.len(),
            all == segments_view(segments@),
            all == markdown_segments(text@),
            first_code_of(all) == first_code_of(all.skip(i as int)),
        decreases segments.len() - i,
    {
        assert(all.skip(i as int).drop_first() =~= all.skip(i + 1));
        assert(all.skip(i as int)[0] == segments[i as int]@);
        match &segments[i] {
            TextSegment::Code(code) => {
                return Some(code.clone());
            },
            TextSegment::Text(_) => {},
        }
        i += 1;
    }
    assert(all.skip(i as int) =~= Seq::<SegmentView>::empty());
    None
}

/// A line without the carriage return that it may end with.
pub open spec fn strip_return(line: Seq<char>) -> Seq<char> {
    if line.len() > 0 && line.last() == '\r' {
        line.drop_last()
    } else {
        line
    }
}

/// The lines of a text. A line ends with a line feed, or with a carriage
/// return and a line feed, neither of which belongs to it; the last line
/// may end with the text, and a text that ends with a line feed has no
/// empty line after it.
pub open spec fn lines_of(text: Seq<char>) -> Seq<Seq<char>>
    decreases text.len(),
{
    if text.len() == 0 {
        Seq::empty()
    } else {
        let found = first_from(text, line_feed(), 0);
        if found is Some && 0 <= found->0 && found->0 + 1 <= text.len() {
            seq![strip_return(text.take(found->0))] + lines_of(text.skip(found->0 + 1))
        } else {
            seq![text]
        }
    }
}

/// A line that opens or closes a code block: it begins, after white space
/// or none, with a fence.
pub open spec fn is_fence_line(line: Seq<char>) -> bool {
    begins_with(trim(line), fence())
}

/// The prose of `lines`: every line outside code blocks, each followed by a
/// line feed. A fence line switches between prose and code and is left
/// out; `in_code` says whether the first line is inside a code block.
pub open spec fn prose_of(lines: Seq<Seq<char>>, in_code: bool) -> Seq<char>
    decreases lines.len(),
{
    if lines.len() == 0 {
        Seq::empty()
    } else if is_fence_line(lines[0]) {
        prose_of(lines.drop_first(), !in_code)
    } else if in_code {
        prose_of(lines.drop_first(), in_code)
    } else {
        lines[0] + line_feed() + prose_of(lines.drop_first(), in_code)
    }
}

/// The sentence, in Chinese, that announces a code block.
pub open spec fn announcement_zh() -> Seq<char> {
    "下面是代码"@
}

/// The sentence, in English, that announces a code block.
pub open spec fn announcement_en() -> Seq<char> {
    "Here is the code"@
}

/// The text that a reply shows beside its code blocks: its prose, without
/// the sentences that announce a code block, trimmed.
pub open spec fn clean_text_of(text: Seq<char>) -> Seq<char> {
    trim(without(without(prose_of(lines_of(text), false), announcement_zh()), announcement_en()))
}

/// Puts `with` in place of every occurrence of `word` in `text`.
pub fn replace_all(text: &str, word: &str, with: &str) -> (result: String)
    ensures
        result@ == replaced(text@, word@, with@),
{
    let chars = chars_of(text);
    let pattern = chars_of(word);
    let total = chars.len();
    let width = pattern.len();
    if width == 0 {
        return text.to_owned();
    }
    let mut result = String::new();
    let mut from: usize = 0;
    let mut done = false;
    assert(text@.skip(0) =~= text@);
    assert(result@ + replaced(text@, word@, with@) =~= replaced(text@, word@, with@));
    while !done
        invariant
            chars@ == text@,
            pattern@ == word@,
            total == chars.len(),
            width == pattern.len(),
            width > 0,
            from <= total,
            !done ==> replaced(text@, word@, with@) == result@ + replaced(
                text@.skip(from as int),
                word@,
                with@,
            ),
            done ==> replaced(text@, word@, with@) == result@,
        decreases total - from + (if done { 0int } else { 1int }),
    {
        let ghost tail = text@.skip(from as int);
        let ghost before = result@;
        let found = find_from(&chars, &pattern, from);
        proof {
            lemma_first_in_rest(
                text@,
                word@,
                from as int,
                match found {
                    Some(at) => Some(at as int),
                    None => None,
                },
            );
        }
        match found {
            Some(at) => {
                assert(occurs_at(text@, word@, at as int));
                let kept = slice_text(text, from, at);
                result.append(kept.as_str());
                result.append(with);
                proof {
                    let later = replaced(text@.skip(at + width), word@, with@);
                    assert(tail.take(at - from) =~= kept@);
                    assert(tail.skip(at - from + width) =~= text@.skip(at + width));
                    assert(replaced(tail, word@, with@) == kept@ + with@ + later);
                    assert(before + replaced(tail, word@, with@) =~= result@ + later);
                }
                from = at + width;
            },
            None => {
                let kept = slice_text(text, from, total);
                result.append(kept.as_str());
                proof {
                    assert(tail =~= kept@);
                    assert(replaced(tail, word@, with@) == tail);
                }
                done = true;
            },
        }
    }
    result
}

/// Takes every occurrence of `word` out of `text`.
pub fn remove_all(text: &str, word: &str) -> (rest: String)
    ensures
        rest@ == without(text@, word@),
{
    let empty = String::new();
    replace_all(text, word, empty.as_str())
}

/// Whether a line opens or closes a code block.
pub fn opens_or_closes_block(line: &str) -> (fenced: bool)
    ensures
        fenced == is_fence_line(line@),
{
    let chars = chars_of(line);
    let total = chars.len();
    let mark = fence_chars();
    let (a, b) = trim_bounds(&chars, 0, total);
    assert(chars@.subrange(0, total as int) =~= line@);
    let ghost inner = chars@.subrange(a as int, b as int);
    let hit = starts_with_at(&chars, &mark, a);
    let fenced = hit && a + 3 <= b;
    proof {
        if a + 3 <= b {
            assert(inner.subrange(0, 3) =~= chars@.subrange(a as int, a + 3));
        }
    }
    fenced
}

/// The text that a reply shows beside its code blocks.
pub fn clean_text(text: &str) -> (clean: String)
    ensures
        clean@ == clean_text_of(text@),
{
    let chars = chars_of(text);
    let total = chars.len();
    let mut feed: Vec<char> = Vec::new();
    feed.push('\n');
    assert(feed@ =~= line_feed());
    let mut prose = String::new();
    let mut in_code = false;
    let mut from: usize = 0;
    assert(text@.skip(0) =~= text@);
    assert(prose@ + prose_of(lines_of(text@), false) =~= prose_of(lines_of(text@), false));
    while from < total
        invariant
            chars@ == text@,
            feed@ == line_feed(),
            total == chars.len(),
            from <= total,
            prose_of(lines_of(text@), false) == prose@ + prose_of(
                lines_of(text@.skip(from as int)),
                in_code,
            ),
        decreases total - from,
    {
        let ghost tail = text@.skip(from as int);
        let ghost before = prose@;
        let ghost was_in_code = in_code;
        let found = find_from(&chars, &feed, from);
        proof {
            lemma_first_in_rest(
                text@,
                line_feed(),
                from as int,
                match found {
                    Some(at) => Some(at as int),
                    None => None,
                },
            );
        }
        let (end, next): (usize, usize) = match found {
            Some(at) => {
                assert(occurs_at(text@, line_feed(), at as int));
                let end = if at > from && chars[at - 1] == '\r' {
                    at - 1
                } else {
                    at
                };
                (end, at + 1)
            },
            None => (total, total),
        };
        let line = slice_text(text, from, end);
        proof {
            let lines = lines_of(tail);
            match found {
                Some(at) => {
                    let raw = tail.take(at - from);
                    assert(raw =~= text@.subrange(from as int, at as int));
                    assert(strip_return(raw) =~= line@);
                    assert(tail.skip(at - from + 1) =~= text@.skip(at + 1));
                    assert(lines == seq![line@] + lines_of(text@.skip(at + 1)));
                    assert(lines.drop_first() =~= lines_of(text@.skip(at + 1)));
                },
                None => {
                    assert(tail =~= line@);
                    assert(lines == seq![line@]);
                    assert(lines.drop_first() =~= Seq::<Seq<char>>::empty());
                    assert(text@.skip(total as int) =~= Seq::<char>::empty());
                    assert(lines.drop_first() =~= lines_of(text@.skip(total as int)));
                },
            }
            assert(lines[0] == line@);
        }
        if opens_or_closes_block(line.as_str()) {
            in_code = !in_code;
        } else if !in_code {
            prose.append(line.as_str());
            prose.append("\n");
            proof {
                reveal_strlit("\n");
                assert("\n"@ =~= line_feed());
            }
        }
        proof {
            let lines = lines_of(tail);
            let later = prose_of(lines.drop_first(), in_code);
            assert(before + prose_of(lines, was_in_code) =~= prose@ + later);
        }
        from = next;
    }
    proof {
        assert(text@.skip(total as int) =~= Seq::<char>::empty());
        assert(prose@ + Seq::<char>::empty() =~= prose@);
    }
    let first = remove_all(prose.as_str(), "下面是代码");
    let second = remove_all(first.as_str(), "Here is the code");
    trimmed(second.as_str())
}

} // verus!
