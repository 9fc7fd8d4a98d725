//! Links to media in messages: which of them the bot answers with a link
//! that plays, and which it fetches and posts as a file.

use crate::pattern::{find_all, matches_view, regex_matches};
use crate::text::{
    ends_with, join, joined, replace, replaced, slice, string_of, to_chars, trim_range, trimmed,
};
use vstd::prelude::*;

verus! {

/// Where a link leads.
#[derive(Copy, Clone, Debug, PartialEq, Eq, Structural)]
pub enum MediaService {
    Reddit,
    Tiktok,
    Twitter,
    /// A video on Discord's own media host, which does not play it.
    DiscordMediaVideoLink,
}

/// The pattern that finds the links of a service.
pub open spec fn media_pattern(service: MediaService) -> Seq<char> {
    match service {
        MediaService::Reddit => "https?://(?:(?:old.|www.)?reddit.com|v.redd.it)/.+(?: )?"@,
        MediaService::Tiktok => "https?://(?:www.|vm.)?tiktok.com/.+(?: )?"@,
        MediaService::Twitter => "https?://(?:www.)?twitter.com/.+/status(?:es)?/(\\d+)(?:.+ )?"@,
        MediaService::DiscordMediaVideoLink => "https?:\\/\\/media.discordapp.net\\/attachments\\/\\d+\\/\\d+\\/\\S+\\.(?:mp4|mov|webm|mkv|flv|wmv|avi|mxf|mpg)"@,
    }
}

impl MediaService {
    /// Whether the media of this service is fetched and posted as a file,
    /// for want of a link that plays.
    pub fn should_download(self) -> (r: bool)
        ensures
            r == (self == MediaService::Reddit || self == MediaService::Tiktok),
    {
        match self {
            MediaService::Reddit => true,
            MediaService::Tiktok => true,
            _ => false,
        }
    }

    /// The pattern that finds the links of this service.
    pub fn pattern(self) -> (r: &'static str)
        ensures
            r@ == media_pattern(self),
    {
        match self {
            MediaService::Reddit => "https?://(?:(?:old.|www.)?reddit.com|v.redd.it)/.+(?: )?",
            MediaService::Tiktok => "https?://(?:www.|vm.)?tiktok.com/.+(?: )?",
            MediaService::Twitter => "https?://(?:www.)?twitter.com/.+/status(?:es)?/(\\d+)(?:.+ )?",
            MediaService::DiscordMediaVideoLink => "https?:\\/\\/media.discordapp.net\\/attachments\\/\\d+\\/\\d+\\/\\S+\\.(?:mp4|mov|webm|mkv|flv|wmv|avi|mxf|mpg)",
        }
    }
}

/// A link to media that was found in a message.
#[derive(Clone, Debug)]
pub struct MediaLink {
    pub service: MediaService,
    pub url: String,
}

/// A link with its text as a sequence of characters.
pub struct MediaLinkView {
    pub service: MediaService,
    pub url: Seq<char>,
}

impl View for MediaLink {
    type V = MediaLinkView;

    open spec fn view(&self) -> MediaLinkView {
        MediaLinkView { service: self.service, url: self.url@ }
    }
}

/// The links with their texts as sequences of characters.
pub open spec fn links_view(links: Seq<MediaLink>) -> Seq<MediaLinkView> {
    Seq::new(links.len(), |i: int| links[i]@)
}

/// The matches of one service as links.
pub open spec fn links_of(service: MediaService, found: Option<Seq<Seq<char>>>) -> Seq<
    MediaLinkView,
> {
    match found {
        Some(urls) => Seq::new(urls.len(), |i: int| MediaLinkView { service, url: urls[i] }),
        None => Seq::empty(),
    }
}

/// Adds the matches of one service to the links.
pub fn add_links(links: &mut Vec<MediaLink>, service: MediaService, found: Option<Vec<String>>)
    ensures
        links_view(final(links)@) == links_view(old(links)@) + links_of(
            service,
            matches_view(found),
        ),
{
    match found {
        None => {
            assert(links_view(links@) + Seq::<MediaLinkView>::empty() =~= links_view(links@));
        },
        Some(urls) => {
            let ghost all = links_of(service, Some(urls.deep_view()));
            let mut rest = urls;
            let ghost mut taken: int = 0;
            assert(links_view(links@) + all.take(0) =~= links_view(links@));
            while rest.len() > 0
                invariant
                    0 <= taken <= urls@.len(),
                    rest@ == urls@.skip(taken),
                    all == links_of(service, Some(urls.deep_view())),
                    links_view(links@) == links_view(old(links)@) + all.take(taken),
                decreases rest.len(),
            {
                let url = rest.remove(0);
                let ghost before = links_view(links@);
                proof {
                    assert(url == urls@[taken]);
                    assert(urls.deep_view()[taken] == url@);
                }
                links.push(MediaLink { service, url });
                proof {
                    assert(links_view(links@) =~= before.push(all[taken]));
                    assert(all.take(taken + 1) =~= all.take(taken).push(all[taken]));
                    assert(links_view(links@) =~= links_view(old(links)@) + all.take(taken + 1));
                    assert(rest@ =~= urls@.skip(taken + 1));
                    taken = taken + 1;
                }
            }
            assert(all.take(urls@.len() as int) =~= all);
        },
    }
}

/// The links to media in a text: those of Reddit, then those of TikTok,
/// of Twitter and of Discord's media host, each in the order in which
/// they stand.
pub open spec fn media_links(content: Seq<char>) -> Seq<MediaLinkView> {
    links_of(MediaService::Reddit, regex_matches(media_pattern(MediaService::Reddit), content))
        + links_of(
        MediaService::Tiktok,
        regex_matches(media_pattern(MediaService::Tiktok), content),
    ) + links_of(
        MediaService::Twitter,
        regex_matches(media_pattern(MediaService::Twitter), content),
    ) + links_of(
        MediaService::DiscordMediaVideoLink,
        regex_matches(media_pattern(MediaService::DiscordMediaVideoLink), content),
    )
}

/// Finds the links to media in a message.
pub fn find_media(content: &str) -> (r: Vec<MediaLink>)
    ensures
        links_view(r@) == media_links(content@),
{
    let mut links: Vec<MediaLink> = Vec::new();
    assert(links_view(links@) =~= Seq::<MediaLinkView>::empty());
    let found = find_all(MediaService::Reddit.pattern(), content);
    add_links(&mut links, MediaService::Reddit, found);
    let found = find_all(MediaService::Tiktok.pattern(), content);
    add_links(&mut links, MediaService::Tiktok, found);
    let found = find_all(MediaService::Twitter.pattern(), content);
    add_links(&mut links, MediaService::Twitter, found);
    let found = find_all(MediaService::DiscordMediaVideoLink.pattern(), content);
    add_links(&mut links, MediaService::DiscordMediaVideoLink, found);
    assert(links_view(links@) =~= media_links(content@));
    links
}

/// What is done with a link.
#[derive(Clone, Debug)]
pub enum MediaStep {
    /// Answer with this link.
    Answer(String),
    /// Ask the extractor for a link that plays; afterwards fetch the
    /// media itself or not.
    Extract(String, bool),
}

/// The link on Discord's host that plays a video: the media host gives
/// way to the content host.
pub open spec fn playable(url: Seq<char>) -> Seq<char> {
    replaced(url, "media.discordapp.net"@, "cdn.discordapp.com"@)
}

/// Decides what is done with a link: one to Discord's media host is
/// answered with the link that plays, every other goes to the extractor.
pub fn media_step(link: &MediaLink) -> (r: MediaStep)
    ensures
        link.service == MediaService::DiscordMediaVideoLink ==> (r matches MediaStep::Answer(url)
            && url@ == playable(link.url@)),
        link.service != MediaService::DiscordMediaVideoLink ==> (r matches MediaStep::Extract(
            url,
            download,
        ) && url@ == link.url@ && download == (link.service == MediaService::Reddit
            || link.service == MediaService::Tiktok)),
{
    match link.service {
        MediaService::DiscordMediaVideoLink => {
            proof {
                reveal_strlit("media.discordapp.net");
            }
            let url = replace(
                &to_chars(link.url.as_str()),
                &to_chars("media.discordapp.net"),
                &to_chars("cdn.discordapp.com"),
            );
            MediaStep::Answer(string_of(&url))
        },
        service => MediaStep::Extract(link.url.clone(), service.should_download()),
    }
}

/// Whether a link leads to a picture, by its ending.
pub open spec fn is_picture(url: Seq<char>) -> bool {
    ||| crate::text::strip_suffix(url, ".png"@) is Some
    ||| crate::text::strip_suffix(url, ".jpg"@) is Some
    ||| crate::text::strip_suffix(url, ".jpeg"@) is Some
    ||| crate::text::strip_suffix(url, ".gif"@) is Some
    ||| crate::text::strip_suffix(url, ".webp"@) is Some
    ||| crate::text::strip_suffix(url, ".svg"@) is Some
}

/// Whether a link leads to a picture.
pub fn is_picture_url(url: &Vec<char>) -> (r: bool)
    ensures
        r == is_picture(url@),
{
    ends_with(url, &to_chars(".png")) || ends_with(url, &to_chars(".jpg")) || ends_with(
        url,
        &to_chars(".jpeg"),
    ) || ends_with(url, &to_chars(".gif")) || ends_with(url, &to_chars(".webp")) || ends_with(
        url,
        &to_chars(".svg"),
    )
}

/// What the extractor's answer means.
#[derive(Clone, Debug)]
pub enum Extracted {
    /// The link leads to a picture: nothing is answered and nothing is
    /// fetched.
    Picture,
    /// Answer with this link, if there is one.
    Link(Option<String>),
}

/// Reads the extractor's answer: the link it printed, without the white
/// space around it. A picture is passed over. A link is answered with
/// only where the media itself is not fetched, and only if there is one.
pub fn read_extracted(service: MediaService, printed: &str) -> (r: Extracted)
    ensures
        is_picture(trimmed(printed@)) ==> r is Picture,
        !is_picture(trimmed(printed@)) ==> (r matches Extracted::Link(link) && match link {
            Some(url) => url@ == trimmed(printed@) && url@.len() > 0 && !(service
                == MediaService::Reddit || service == MediaService::Tiktok),
            None => trimmed(printed@).len() == 0 || service == MediaService::Reddit || service
                == MediaService::Tiktok,
        }),
{
    let chars = to_chars(printed);
    let (lo, hi) = trim_range(&chars);
    let url = slice(&chars, lo, hi);
    if is_picture_url(&url) {
        return Extracted::Picture;
    }
    if !service.should_download() && url.len() > 0 {
        Extracted::Link(Some(string_of(&url)))
    } else {
        Extracted::Link(None)
    }
}

/// The text of the answer: the links, one to a line; `None` if there is
/// neither a link nor a file to answer with.
pub fn media_reply(links: &Vec<String>, has_file: bool) -> (r: Option<String>)
    ensures
        r is Some == (links@.len() > 0 || has_file),
        r matches Some(text) ==> text@ == joined(links.deep_view(), seq!['\n']),
{
    if links.len() > 0 || has_file {
        let mut newline: Vec<char> = Vec::new();
        newline.push('\n');
        assert(newline@ =~= seq!['\n']);
        Some(string_of(&join(links, &newline)))
    } else {
        None
    }
}

} // verus!
