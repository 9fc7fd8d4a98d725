//! What a message to a chat service is made of.

use crate::services::{MessageId, UserId};
use crate::text::to_chars;
use vstd::prelude::*;

verus! {

/// An embed: a framed block that a message can carry.
#[derive(Clone, Debug, Default)]
pub struct MessageEmbed {
    pub author_name: Option<String>,
    pub author_icon_url: Option<String>,
    pub author_url: Option<String>,
    pub color: Option<u32>,
    pub description: Option<String>,
    pub fields: Vec<(String, String, bool)>,
    pub footer_text: Option<String>,
    pub footer_icon_url: Option<String>,
    pub image: Option<String>,
    pub thumbnail: Option<String>,
    /// The time that the embed shows, as the service reads it.
    pub timestamp: Option<String>,
    pub title: Option<String>,
    pub attachment: Option<String>,
}

/// What goes with the text of a message.
#[derive(Clone, Debug, Default)]
pub struct MessageSettings {
    pub embed: Option<MessageEmbed>,
    pub reply: Option<MessageId>,
    pub reply_user: Option<UserId>,
    /// Files, each with its name and its bytes.
    pub attachments: Vec<(String, Vec<u8>)>,
}

/// The text of a message, owned or borrowed.
pub enum MessageContent<'a> {
    String(String),
    Str(&'a str),
}

impl<'a> MessageContent<'a> {
    /// The text.
    pub open spec fn text(self) -> Seq<char> {
        match self {
            MessageContent::String(s) => s@,
            MessageContent::Str(s) => s@,
        }
    }
}

/// A file that came with a message.
#[derive(Clone, Debug)]
pub struct Attachment {
    pub filename: String,
    pub url: String,
    pub size: Option<u64>,
    pub dimensions: Option<(u64, u64)>,
}

/// What can be the text of a message.
pub trait ToMessageContent<'a> {
    /// The text that `self` stands for.
    spec fn content(self) -> Seq<char> where Self: Sized;

    fn to_message_content(self) -> (r: MessageContent<'a>) where Self: Sized
        ensures
            r.text() == self.content(),
    ;
}

impl ToMessageContent<'static> for String {
    open spec fn content(self) -> Seq<char> {
        self@
    }

    fn to_message_content(self) -> (r: MessageContent<'static>) {
        MessageContent::String(self)
    }
}

impl<'a> ToMessageContent<'a> for &'a str {
    open spec fn content(self) -> Seq<char> {
        self@
    }

    fn to_message_content(self) -> (r: MessageContent<'a>) {
        MessageContent::Str(self)
    }
}

/// The longest text that goes out as the text of a message, in
/// characters.
pub const MAX_INLINE_CHARACTERS: usize = 2000;

/// The most newlines that a text may hold to go out as the text of a
/// message.
pub const MAX_INLINE_NEWLINES: usize = 20;

/// How a text goes out.
#[derive(Copy, Clone, Debug, PartialEq, Eq, Structural)]
pub enum ContentForm {
    /// There is no text.
    Absent,
    /// As the text of the message.
    Inline,
    /// As a file that goes with the message.
    File,
}

/// How many of the characters are the character `c`.
pub open spec fn count_of(text: Seq<char>, c: char) -> nat
    decreases text.len(),
{
    if text.len() == 0 {
        0
    } else {
        count_of(text.drop_last(), c) + if text.last() == c {
            1nat
        } else {
            0nat
        }
    }
}

/// How a text goes out: not at all if it is empty, as a file if it is
/// too long or has too many lines, else as the text of the message.
pub open spec fn form_of(text: Seq<char>) -> ContentForm {
    if text.len() == 0 {
        ContentForm::Absent
    } else if text.len() > MAX_INLINE_CHARACTERS || count_of(text, '\n') > MAX_INLINE_NEWLINES {
        ContentForm::File
    } else {
        ContentForm::Inline
    }
}

/// Decides how a text goes out.
pub fn content_form(content: &str) -> (r: ContentForm)
    ensures
        r == form_of(content@),
{
    let chars = to_chars(content);
    if chars.len() == 0 {
        return ContentForm::Absent;
    }
    if chars.len() > MAX_INLINE_CHARACTERS {
        return ContentForm::File;
    }
    let mut newlines: usize = 0;
    let mut i: usize = 0;
    assert(chars@.take(0) =~= Seq::<char>::empty());
    while i < chars.len()
        invariant
            i <= chars.len(),
            newlines == count_of(chars@.take(i as int), '\n'),
            newlines <= i,
        decreases chars.len() - i,
    {
        assert(chars@.take(i + 1).drop_last() =~= chars@.take(i as int));
        if chars[i] == '\n' {
            newlines += 1;
        }
        i += 1;
    }
    assert(chars@.take(chars@.len() as int) =~= chars@);
    if newlines > MAX_INLINE_NEWLINES {
        ContentForm::File
    } else {
        ContentForm::Inline
    }
}

/// The name of the file that a long text goes out as.
pub fn content_file_name() -> (r: &'static str)
    ensures
        r@ == "message.txt"@,
{
    "message.txt"
}

} // verus!
