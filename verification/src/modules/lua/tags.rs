//! Tags: texts that users keep under a key, with places in them that are
//! filled in when the tag is shown.

use crate::text::{
    all_lowercase, char_is_whitespace, find, find_from, from_chars, has_at, is_all_lowercase,
    is_whitespace, lemma_find_from, matches_at, string_of, to_chars,
};
use vstd::prelude::*;

verus! {

/// A piece of a tag's text.
#[derive(Clone, Debug, PartialEq, Eq)]
pub enum TagPart {
    /// A fenced block of code: its language and what it holds.
    Codeblock(String, String),
    /// Plain text.
    Text(String),
    /// A place with a name and an argument, written `{name:argument}`.
    Tag(String, String),
    /// A place with a name only, written `{name}`.
    Var(String),
}

/// A piece with its texts as sequences of characters.
pub enum TagPartView {
    Codeblock(Seq<char>, Seq<char>),
    Text(Seq<char>),
    Tag(Seq<char>, Seq<char>),
    Var(Seq<char>),
}

impl View for TagPart {
    type V = TagPartView;

    open spec fn view(&self) -> TagPartView {
        match self {
            TagPart::Codeblock(lang, content) => TagPartView::Codeblock(lang@, content@),
            TagPart::Text(text) => TagPartView::Text(text@),
            TagPart::Tag(name, value) => TagPartView::Tag(name@, value@),
            TagPart::Var(name) => TagPartView::Var(name@),
        }
    }
}

/// The pieces with their texts as sequences of characters.
pub open spec fn parts_view(parts: Seq<TagPart>) -> Seq<TagPartView> {
    Seq::new(parts.len(), |i: int| parts[i]@)
}

/// The three backticks that open and close a block of code.
pub open spec fn fence() -> Seq<char> {
    seq!['`', '`', '`']
}

/// The pieces with the gathered text added as one more, if there is any.
pub open spec fn flushed(out: Seq<TagPartView>, text: Seq<char>) -> Seq<TagPartView> {
    if text.len() > 0 {
        out.push(TagPartView::Text(text))
    } else {
        out
    }
}

/// The gathered text without its first character, which is the brace
/// that opened the place.
pub open spec fn name_of(text: Seq<char>) -> Seq<char> {
    if text.len() > 0 {
        text.subrange(1, text.len() as int)
    } else {
        text
    }
}

/// The first index at or after `i` that holds white space, or the length
/// of `s`.
pub open spec fn word_end(s: Seq<char>, i: int) -> int
    decreases s.len() - i,
{
    if 0 <= i < s.len() && !is_whitespace(s[i]) {
        word_end(s, i + 1)
    } else {
        i
    }
}

/// A block of code that opens at `at`.
pub struct CodeblockAt {
    /// The language: what follows the opening fence up to the first white
    /// space.
    pub lang: Seq<char>,
    /// What stands between that white space and the closing fence.
    pub content: Seq<char>,
    /// How far behind the opening fence the closing one begins.
    pub end: int,
}

/// The block of code that opens at `at`, if one does: a fence, a
/// language (which may be empty), one character of white space, content
/// that is not empty, and a fence.
pub open spec fn codeblock_at(value: Seq<char>, at: int) -> Option<CodeblockAt> {
    if !matches_at(value, fence(), at) {
        None
    } else {
        match find_from(value, fence(), at + 3) {
            None => None,
            Some(close) => {
                let lang_end = word_end(value, at + 3);
                if lang_end + 1 < close {
                    Some(
                        CodeblockAt {
                            lang: value.subrange(at + 3, lang_end),
                            content: value.subrange(lang_end + 1, close),
                            end: close - (at + 3),
                        },
                    )
                } else {
                    None
                }
            },
        }
    }
}

/// Where the reader of a tag stands.
pub struct TagCursor {
    /// The pieces found so far.
    pub out: Seq<TagPartView>,
    /// The text gathered for the next piece.
    pub text: Seq<char>,
    /// How many braces are open.
    pub depth: nat,
    /// The name of the place that is being read, once its colon was seen.
    pub tag: Option<Seq<char>>,
    /// The next character to read.
    pub pos: int,
    /// Where blocks of code are looked for: as many characters into the
    /// text as have been read one by one.
    pub offset: int,
}

/// The reader after the character at its position.
pub open spec fn tag_step(value: Seq<char>, cur: TagCursor) -> TagCursor {
    let c = value[cur.pos];
    let next = TagCursor { pos: cur.pos + 1, offset: cur.offset + 1, ..cur };
    if c == '{' {
        if cur.depth == 0 {
            TagCursor {
                out: flushed(cur.out, cur.text),
                text: seq!['{'],
                depth: 1,
                ..next
            }
        } else {
            TagCursor { text: cur.text.push('{'), depth: cur.depth + 1, ..next }
        }
    } else if c == '}' && cur.depth == 1 && cur.tag is Some {
        TagCursor {
            out: cur.out.push(TagPartView::Tag(cur.tag.unwrap(), cur.text)),
            text: Seq::empty(),
            depth: 0,
            tag: None,
            ..next
        }
    } else if c == '}' && cur.depth == 1 && all_lowercase(name_of(cur.text)) {
        TagCursor {
            out: cur.out.push(TagPartView::Var(name_of(cur.text))),
            text: Seq::empty(),
            depth: 0,
            ..next
        }
    } else if c == '}' && cur.depth > 0 {
        TagCursor { text: cur.text.push('}'), depth: (cur.depth - 1) as nat, ..next }
    } else if c == ':' && cur.depth == 1 && cur.text.len() > 0 && all_lowercase(
        name_of(cur.text),
    ) {
        TagCursor { text: Seq::empty(), tag: Some(name_of(cur.text)), ..next }
    } else if c == '`' && cur.depth == 0 && matches_at(value, fence(), cur.offset) {
        match codeblock_at(value, cur.offset) {
            Some(block) => TagCursor {
                out: flushed(cur.out, cur.text).push(
                    TagPartView::Codeblock(block.lang, block.content),
                ),
                text: Seq::empty(),
                pos: if cur.pos + 1 + block.end + 6 <= value.len() {
                    cur.pos + 1 + block.end + 6
                } else {
                    value.len() as int
                },
                ..next
            },
            None => TagCursor { out: flushed(cur.out, cur.text), text: seq!['`'], ..next },
        }
    } else {
        TagCursor { text: cur.text.push(c), ..next }
    }
}

/// The pieces once the text has ended. What was gathered becomes a last
/// piece of text; and so does the name of a place whose colon was the
/// last thing seen.
pub open spec fn tag_finish(cur: TagCursor) -> Seq<TagPartView> {
    match cur.tag {
        Some(tag) => if cur.text.len() > 0 {
            cur.out.push(TagPartView::Text(cur.text))
        } else {
            cur.out.push(TagPartView::Text(tag))
        },
        None => flushed(cur.out, cur.text),
    }
}

/// The pieces that the rest of the text gives.
pub open spec fn tag_from(value: Seq<char>, cur: TagCursor) -> Seq<TagPartView>
    decreases value.len() - cur.pos,
{
    if cur.pos < 0 || cur.pos >= value.len() {
        tag_finish(cur)
    } else {
        let next = tag_step(value, cur);
        if next.pos > cur.pos {
            tag_from(value, next)
        } else {
            tag_finish(cur)
        }
    }
}

/// The pieces of a tag's text.
pub open spec fn tag_parts(value: Seq<char>) -> Seq<TagPartView> {
    tag_from(
        value,
        TagCursor {
            out: Seq::empty(),
            text: Seq::empty(),
            depth: 0,
            tag: None,
            pos: 0,
            offset: 0,
        },
    )
}

/// The name of the place that is being read, as a sequence of characters.
pub open spec fn tag_view(tag: Option<String>) -> Option<Seq<char>> {
    match tag {
        Some(t) => Some(t@),
        None => None,
    }
}

/// Every step reads at least one character.
pub proof fn lemma_tag_step_advances(value: Seq<char>, cur: TagCursor)
    requires
        0 <= cur.offset <= cur.pos < value.len(),
    ensures
        tag_step(value, cur).pos > cur.pos,
        tag_step(value, cur).pos <= value.len(),
        tag_step(value, cur).offset == cur.offset + 1,
        tag_step(value, cur).depth <= cur.depth + 1,
{
    lemma_find_from(value, fence(), cur.offset + 3);
}

fn push_part(out: &mut Vec<TagPart>, part: TagPart)
    ensures
        parts_view(final(out)@) == parts_view(old(out)@).push(part@),
{
    out.push(part);
    assert(parts_view(out@) =~= parts_view(old(out)@).push(part@));
}

fn flush_text(out: &mut Vec<TagPart>, text: &mut Vec<char>)
    ensures
        parts_view(final(out)@) == flushed(parts_view(old(out)@), old(text)@),
        final(text)@ == Seq::<char>::empty(),
{
    if text.len() > 0 {
        push_part(out, TagPart::Text(string_of(text)));
        text.clear();
    }
    assert(text@ =~= Seq::<char>::empty());
}

fn name_in(text: &Vec<char>) -> (r: (bool, String))
    ensures
        r.0 == all_lowercase(name_of(text@)),
        r.1@ == name_of(text@),
{
    if text.len() > 0 {
        (is_all_lowercase(text, 1), from_chars(text, 1, text.len()))
    } else {
        assert(all_lowercase(text@));
        (true, string_of(text))
    }
}

fn find_word_end(value: &Vec<char>, from: usize) -> (r: usize)
    requires
        from <= value.len(),
    ensures
        r == word_end(value@, from as int),
        from <= r <= value.len(),
{
    let mut i: usize = from;
    while i < value.len() && !char_is_whitespace(value[i])
        invariant
            from <= i <= value.len(),
            word_end(value@, i as int) == word_end(value@, from as int),
        decreases value.len() - i,
    {
        i += 1;
    }
    i
}

/// The block of code that opens at `at`: where its language ends, and
/// where its closing fence begins.
fn find_codeblock(value: &Vec<char>, ticks: &Vec<char>, at: usize) -> (r: Option<(usize, usize)>)
    requires
        ticks@ == fence(),
        ticks@.len() == 3,
        matches_at(value@, fence(), at as int),
    ensures
        r is Some == codeblock_at(value@, at as int) is Some,
        r matches Some((lang_end, close)) ==> {
            &&& at + 3 <= lang_end < close
            &&& close + 3 <= value.len()
            &&& lang_end == word_end(value@, at + 3)
            &&& codeblock_at(value@, at as int).unwrap().end == close - (at + 3)
        },
{
    assert(at + fence().len() <= value@.len());
    assert(at + 3 <= value.len());
    proof {
        lemma_find_from(value@, fence(), at + 3);
    }
    match find(value, ticks, at + 3) {
        None => None,
        Some(close) => {
            let lang_end = find_word_end(value, at + 3);
            if lang_end < close && lang_end + 1 < close {
                Some((lang_end, close))
            } else {
                None
            }
        },
    }
}

/// Splits a tag's text into its pieces: plain text, places in braces with
/// a name in small letters, and fenced blocks of code. Braces may nest;
/// only the outermost pair makes a place.
pub fn parse_tag(value: &str) -> (r: Vec<TagPart>)
    ensures
        parts_view(r@) == tag_parts(value@),
{
    let chars = to_chars(value);
    let mut ticks: Vec<char> = Vec::new();
    ticks.push('`');
    ticks.push('`');
    ticks.push('`');
    assert(ticks@ =~= fence());
    let mut out: Vec<TagPart> = Vec::new();
    let mut text: Vec<char> = Vec::new();
    let mut depth: usize = 0;
    let mut tag: Option<String> = None;
    let mut pos: usize = 0;
    let mut offset: usize = 0;
    assert(parts_view(out@) =~= Seq::<TagPartView>::empty());
    while pos < chars.len()
        invariant
            offset <= pos <= chars.len(),
            depth <= offset,
            chars@ == value@,
            ticks@ == fence(),
            ticks@.len() == 3,
            tag_from(
                value@,
                TagCursor {
                    out: parts_view(out@),
                    text: text@,
                    depth: depth as nat,
                    tag: tag_view(tag),
                    pos: pos as int,
                    offset: offset as int,
                },
            ) == tag_parts(value@),
        decreases chars.len() - pos,
    {
        let ghost cur = TagCursor {
            out: parts_view(out@),
            text: text@,
            depth: depth as nat,
            tag: tag_view(tag),
            pos: pos as int,
            offset: offset as int,
        };
        proof {
            lemma_tag_step_advances(value@, cur);
        }
        let c = chars[pos];
        let at = offset;
        pos += 1;
        offset += 1;
        if c == '{' {
            if depth == 0 {
                flush_text(&mut out, &mut text);
            }
            text.push('{');
            depth += 1;
            assert(text@ =~= tag_step(value@, cur).text);
            continue;
        }
        if c == '}' && depth > 0 {
            if depth == 1 {
                match tag.take() {
                    Some(name) => {
                        push_part(&mut out, TagPart::Tag(name, string_of(&text)));
                        text.clear();
                        depth = 0;
                        assert(text@ =~= Seq::<char>::empty());
                        continue;
                    },
                    None => {
                        let (small, name) = name_in(&text);
                        if small {
                            push_part(&mut out, TagPart::Var(name));
                            text.clear();
                            depth = 0;
                            assert(text@ =~= Seq::<char>::empty());
                            continue;
                        }
                    },
                }
            }
            depth -= 1;
            text.push('}');
            continue;
        }
        if c == ':' && depth == 1 && text.len() > 0 {
            let (small, name) = name_in(&text);
            if small {
                tag = Some(name);
                text.clear();
                assert(text@ =~= Seq::<char>::empty());
                continue;
            }
        }
        if c == '`' && depth == 0 && has_at(&chars, at, &ticks) {
            flush_text(&mut out, &mut text);
            match find_codeblock(&chars, &ticks, at) {
                Some((lang_end, close)) => {
                    let lang = from_chars(&chars, at + 3, lang_end);
                    let content = from_chars(&chars, lang_end + 1, close);
                    push_part(&mut out, TagPart::Codeblock(lang, content));
                    let skip = close - (at + 3) + 6;
                    pos = if skip <= chars.len() - pos {
                        pos + skip
                    } else {
                        chars.len()
                    };
                    continue;
                },
                None => {
                    text.push('`');
                    assert(text@ =~= seq!['`']);
                    continue;
                },
            }
        }
        text.push(c);
    }
    match tag {
        Some(name) => {
            if text.len() > 0 {
                push_part(&mut out, TagPart::Text(string_of(&text)));
            } else {
                push_part(&mut out, TagPart::Text(name));
            }
        },
        None => {
            flush_text(&mut out, &mut text);
        },
    }
    out
}

} // verus!
