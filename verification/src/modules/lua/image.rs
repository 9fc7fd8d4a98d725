//! Pictures for guest code: what is known of one, how large one may be,
//! and where the picture that a text names is found.

use crate::message::Attachment;
use crate::modules::lua::scripts::{extension, extension_of};
use crate::pattern::{first_groups, groups_view, regex_groups};
use crate::text::{
    ends_with, extend_chars, format_hex, hex, joined, matches_at, starts_with, str_eq, string_of,
    strip_suffix, to_chars,
};
use vstd::prelude::*;

verus! {

/// The most bytes that are read of a picture: four mebibytes.
pub const MAX_IMAGE_SIZE: usize = 4194304;

/// The longest side that a new picture may have, in pixels.
pub const MAX_CANVAS_SIDE: u64 = 2000;

/// The most commands that one drawing holds.
pub const MAX_DRAW_COMMANDS: usize = 32;

/// The most commands that one path holds.
pub const MAX_PATH_COMMANDS: usize = 512;

/// What is known of a picture without reading its pixels.
#[derive(Clone, Debug)]
pub struct ImageInfo {
    pub width: u64,
    pub height: u64,
    /// How many frames the picture has.
    pub images: u64,
    /// The format, in lower case.
    pub format: String,
}

/// A picture: its bytes and what is known of it.
#[derive(Clone, Debug)]
pub struct ImageInner {
    pub data: Vec<u8>,
    pub info: ImageInfo,
}

/// Why a picture was refused.
#[derive(Copy, Clone, Debug, PartialEq, Eq, Structural)]
pub enum ImageError {
    /// A side of the new picture is longer than allowed.
    TooLarge,
    /// The drawing holds as many commands as it can.
    TooManyDrawCommands,
    /// The path holds as many commands as it can.
    TooManyPathCommands,
}

/// The words of an error.
pub open spec fn image_error_message(e: ImageError) -> Seq<char> {
    match e {
        ImageError::TooLarge => "image cannot be bigger than 2000x2000"@,
        ImageError::TooManyDrawCommands => "cannot have more than 32 draw commands in one draw command buffer"@,
        ImageError::TooManyPathCommands => "cannot have more than 512 path commands in one path"@,
    }
}

impl ImageError {
    /// The error in words.
    pub fn message(&self) -> (r: &'static str)
        ensures
            r@ == image_error_message(*self),
    {
        match self {
            ImageError::TooLarge => "image cannot be bigger than 2000x2000",
            ImageError::TooManyDrawCommands => "cannot have more than 32 draw commands in one draw command buffer",
            ImageError::TooManyPathCommands => "cannot have more than 512 path commands in one path",
        }
    }
}

/// Whether a new picture of this size may be made.
pub fn check_canvas(width: u64, height: u64) -> (r: Result<(), ImageError>)
    ensures
        r is Ok == (width <= MAX_CANVAS_SIDE && height <= MAX_CANVAS_SIDE),
        r matches Err(e) ==> e == ImageError::TooLarge,
{
    if width > MAX_CANVAS_SIDE || height > MAX_CANVAS_SIDE {
        Err(ImageError::TooLarge)
    } else {
        Ok(())
    }
}

/// Whether a drawing that holds `count` commands takes one more.
pub fn check_draw_commands(count: usize) -> (r: Result<(), ImageError>)
    ensures
        r is Ok == (count < MAX_DRAW_COMMANDS),
        r matches Err(e) ==> e == ImageError::TooManyDrawCommands,
{
    if count >= MAX_DRAW_COMMANDS {
        Err(ImageError::TooManyDrawCommands)
    } else {
        Ok(())
    }
}

/// Whether a path that holds `count` commands takes one more.
pub fn check_path_commands(count: usize) -> (r: Result<(), ImageError>)
    ensures
        r is Ok == (count < MAX_PATH_COMMANDS),
        r matches Err(e) ==> e == ImageError::TooManyPathCommands,
{
    if count >= MAX_PATH_COMMANDS {
        Err(ImageError::TooManyPathCommands)
    } else {
        Ok(())
    }
}

/// Whether a text opens like a link of the web.
pub open spec fn opens_like_link(text: Seq<char>) -> bool {
    matches_at(text, "https://"@, 0) || matches_at(text, "http://"@, 0)
}

/// Whether a text opens like a link of the web.
pub fn is_http_url(text: &str) -> (r: bool)
    ensures
        r == opens_like_link(text@),
{
    let chars = to_chars(text);
    starts_with(&chars, &to_chars("https://")) || starts_with(&chars, &to_chars("http://"))
}

/// Whether a path names a drawing in the SVG format, by its ending.
pub fn is_svg(path: &str) -> (r: bool)
    ensures
        r == strip_suffix(path@, ".svg"@) is Some,
{
    ends_with(&to_chars(path), &to_chars(".svg"))
}

/// Whether the name of a file is that of a picture: its ending is `png`,
/// `gif`, `jpg` or `jpeg`.
pub open spec fn picture_name(filename: Seq<char>) -> bool {
    match extension_of(filename) {
        Some(ending) => ending == "png"@ || ending == "gif"@ || ending == "jpg"@ || ending
            == "jpeg"@,
        None => false,
    }
}

/// Whether a file that came with a message is a picture, by its name.
pub fn is_image_attachment(filename: &str) -> (r: bool)
    ensures
        r == picture_name(filename@),
{
    match extension(filename) {
        Some(ending) => str_eq(ending.as_str(), "png") || str_eq(ending.as_str(), "gif")
            || str_eq(ending.as_str(), "jpg") || str_eq(ending.as_str(), "jpeg"),
        None => false,
    }
}

/// The pattern that finds an emoji of a Discord server in a text, with
/// the number of a moving one in the first group and that of a still one
/// in the second.
pub open spec fn emoji_pattern() -> Seq<char> {
    "<a:.+?:(\\d+)>|<:.+?:(\\d+)>"@
}

/// Where the picture of an emoji of a Discord server is found.
pub open spec fn emoji_link(id: Seq<char>, moving: bool) -> Seq<char> {
    "https://cdn.discordapp.com/emojis/"@ + id + if moving {
        ".gif?v=1"@
    } else {
        ".png?v=1"@
    }
}

/// The group at a place, if the pattern fitted and the group took part.
pub open spec fn group_at(groups: Option<Seq<Option<Seq<char>>>>, i: int) -> Option<Seq<char>> {
    match groups {
        Some(all) => if 0 <= i < all.len() {
            all[i]
        } else {
            None
        },
        None => None,
    }
}

/// Where the picture of the emoji is found that the groups name: a
/// moving one if the first group took part, else a still one if the
/// second did.
pub open spec fn emoji_link_of(groups: Option<Seq<Option<Seq<char>>>>) -> Option<Seq<char>> {
    match group_at(groups, 1) {
        Some(id) => Some(emoji_link(id, true)),
        None => match group_at(groups, 2) {
            Some(id) => Some(emoji_link(id, false)),
            None => None,
        },
    }
}

fn link_of(id: &str, moving: bool) -> (r: String)
    ensures
        r@ == emoji_link(id@, moving),
{
    let mut out = to_chars("https://cdn.discordapp.com/emojis/");
    extend_chars(&mut out, &to_chars(id));
    if moving {
        extend_chars(&mut out, &to_chars(".gif?v=1"));
    } else {
        extend_chars(&mut out, &to_chars(".png?v=1"));
    }
    string_of(&out)
}

/// Where the picture of the emoji is found that the groups of a match
/// name.
pub fn emoji_url_from(groups: &Option<Vec<Option<String>>>) -> (r: Option<String>)
    ensures
        r is Some == emoji_link_of(groups_view(*groups)) is Some,
        r matches Some(url) ==> Some(url@) == emoji_link_of(groups_view(*groups)),
{
    match groups {
        None => None,
        Some(all) => {
            if all.len() > 1 {
                match &all[1] {
                    Some(id) => {
                        return Some(link_of(id.as_str(), true));
                    },
                    None => {},
                }
            }
            if all.len() > 2 {
                match &all[2] {
                    Some(id) => {
                        return Some(link_of(id.as_str(), false));
                    },
                    None => {},
                }
            }
            None
        },
    }
}

/// Where the picture of the first emoji of a Discord server in a text is
/// found.
pub fn custom_emoji_url(text: &str) -> (r: Option<String>)
    ensures
        r is Some == emoji_link_of(regex_groups(emoji_pattern(), text@)) is Some,
        r matches Some(url) ==> Some(url@) == emoji_link_of(regex_groups(emoji_pattern(), text@)),
{
    let groups = first_groups("<a:.+?:(\\d+)>|<:.+?:(\\d+)>", text);
    emoji_url_from(&groups)
}

/// The numbers of the characters of an emoji, each in hexadecimal.
pub open spec fn code_points(emoji: Seq<char>) -> Seq<Seq<char>> {
    Seq::new(emoji.len(), |i: int| hex(emoji[i] as u32 as nat))
}

/// Where the drawing of an emoji is found: under the numbers of its
/// characters, in hexadecimal with hyphens between them.
pub open spec fn twemoji_link(emoji: Seq<char>) -> Seq<char> {
    "https://cdnjs.cloudflare.com/ajax/libs/twemoji/13.0.2/svg/"@ + joined(
        code_points(emoji),
        seq!['-'],
    ) + ".svg"@
}

/// Where the drawing of an emoji is found.
pub fn twemoji_url(emoji: &str) -> (r: String)
    ensures
        r@ == twemoji_link(emoji@),
{
    let chars = to_chars(emoji);
    let mut code: Vec<char> = Vec::new();
    let ghost parts = code_points(emoji@);
    let mut i: usize = 0;
    assert(parts.take(0) =~= Seq::<Seq<char>>::empty());
    while i < chars.len()
        invariant
            i <= chars.len(),
            chars@ == emoji@,
            parts == code_points(emoji@),
            code@ == joined(parts.take(i as int), seq!['-']),
        decreases chars.len() - i,
    {
        let ghost before = code@;
        if i > 0 {
            code.push('-');
        }
        let code_point: u32 = chars[i] as u32;
        let piece = format_hex(code_point as u64);
        extend_chars(&mut code, &piece);
        proof {
            let next = parts.take(i + 1);
            assert(next.drop_last() =~= parts.take(i as int));
            assert(next.last() == piece@);
            if i == 0 {
                assert(code@ =~= piece@);
            } else {
                assert(code@ =~= before + seq!['-'] + piece@);
            }
        }
        i += 1;
    }
    assert(parts.take(parts.len() as int) =~= parts);
    let mut out = to_chars("https://cdnjs.cloudflare.com/ajax/libs/twemoji/13.0.2/svg/");
    extend_chars(&mut out, &code);
    extend_chars(&mut out, &to_chars(".svg"));
    string_of(&out)
}

/// Where the first picture stands among the files of a message.
pub open spec fn first_picture(files: Seq<Attachment>) -> Option<int>
    decreases files.len(),
{
    if files.len() == 0 {
        None
    } else if picture_name(files[0].filename@) {
        Some(0)
    } else {
        match first_picture(files.drop_first()) {
            Some(i) => Some(i + 1),
            None => None,
        }
    }
}

/// Finds the first picture among the files that came with a message.
pub fn first_image_attachment(files: &Vec<Attachment>) -> (r: Option<usize>)
    ensures
        r is Some == first_picture(files@) is Some,
        r matches Some(i) ==> first_picture(files@) == Some(i as int) && i < files@.len(),
{
    let mut i: usize = 0;
    assert(files@.skip(0) =~= files@);
    while i < files.len()
        invariant
            i <= files.len(),
            first_picture(files@) == match first_picture(files@.skip(i as int)) {
                Some(k) => Some(k + i),
                None => None,
            },
        decreases files.len() - i,
    {
        assert(files@.skip(i as int)[0] == files@[i as int]);
        assert(files@.skip(i as int).drop_first() =~= files@.skip(i + 1));
        if is_image_attachment(files[i].filename.as_str()) {
            return Some(i);
        }
        i += 1;
    }
    None
}

} // verus!
