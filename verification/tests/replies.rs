use kaito::modules::lua::replies::{GeneratedReplies, SandboxReplies, REMEMBERED_REQUESTS};
use kaito::modules::utils::{
    add_links, find_media, is_picture_url, media_reply, media_step, read_extracted, Extracted, MediaLink,
    MediaService, MediaStep,
};
use kaito::services::{ChannelId, MessageId};

fn m(n: u64) -> MessageId {
    MessageId::Discord(n)
}

fn c(n: u64) -> ChannelId {
    ChannelId::Discord(n)
}

#[test]
fn replies_are_remembered_by_request() {
    let mut r = SandboxReplies::new();
    assert!(!r.should_abort(m(1)));
    r.add_reply(m(1), c(10), m(100));
    r.add_reply(m(1), c(10), m(101));
    r.add_reply(m(2), c(20), m(200));
    assert!(!r.should_abort(m(1)));
    assert_eq!(r.take_replies(m(1)), vec![(c(10), m(100)), (c(10), m(101))]);
    assert!(r.take_replies(m(1)).is_empty());
    assert_eq!(r.take_replies(m(2)), vec![(c(20), m(200))]);
    assert!(r.take_replies(m(3)).is_empty());
}

#[test]
fn a_request_that_was_taken_back_stops_its_reader() {
    let mut r = SandboxReplies::new();
    assert!(!r.request_abort(m(1)));
    assert!(!r.should_abort(m(1)));
    r.add_reply(m(1), c(10), m(100));
    assert!(r.request_abort(m(1)));
    assert!(r.should_abort(m(1)));
    // the replies are still there to be deleted, and more can come
    r.add_reply(m(1), c(10), m(101));
    assert!(r.should_abort(m(1)));
    assert_eq!(r.take_replies(m(1)).len(), 2);
    assert!(r.should_abort(m(1)));
}

#[test]
fn only_the_latest_requests_are_remembered() {
    assert_eq!(REMEMBERED_REQUESTS, 64);
    let mut r = SandboxReplies::new();
    for n in 0..64 {
        r.add_reply(m(n), c(1), m(1000 + n));
    }
    // request 0 is used again, so request 1 is the one used longest ago
    assert!(!r.should_abort(m(0)));
    r.add_reply(m(64), c(1), m(2000));
    assert!(r.take_replies(m(1)).is_empty());
    assert_eq!(r.take_replies(m(0)), vec![(c(1), m(1000))]);
    assert_eq!(r.take_replies(m(64)), vec![(c(1), m(2000))]);
    assert_eq!(r.take_replies(m(63)), vec![(c(1), m(1063))]);
}

#[test]
fn links_are_found_service_by_service() {
    let text = "see https://twitter.com/a/status/123 and https://www.reddit.com/r/x/comments/1 end";
    let links = find_media(text);
    let got: Vec<(MediaService, &str)> =
        links.iter().map(|l| (l.service, l.url.as_str())).collect();
    assert_eq!(
        got,
        vec![
            (MediaService::Reddit, "https://www.reddit.com/r/x/comments/1 end"),
            (MediaService::Twitter, "https://twitter.com/a/status/123 and https://www.reddit.com/r/x/comments/1 "),
        ]
    );
    assert!(find_media("nothing here").is_empty());
    let links = find_media("https://media.discordapp.net/attachments/1/2/clip.mp4 x");
    assert_eq!(links.len(), 1);
    assert_eq!(links[0].service, MediaService::DiscordMediaVideoLink);
    assert_eq!(links[0].url, "https://media.discordapp.net/attachments/1/2/clip.mp4");
    let links = find_media("https://vm.tiktok.com/abc");
    assert_eq!(links[0].service, MediaService::Tiktok);
}

#[test]
fn what_is_done_with_a_link() {
    let link = MediaLink {
        service: MediaService::DiscordMediaVideoLink,
        url: "https://media.discordapp.net/attachments/1/2/clip.mp4".into(),
    };
    assert!(matches!(media_step(&link),
        MediaStep::Answer(u) if u == "https://cdn.discordapp.com/attachments/1/2/clip.mp4"));
    let link = MediaLink { service: MediaService::Reddit, url: "https://reddit.com/x".into() };
    assert!(matches!(media_step(&link), MediaStep::Extract(u, true) if u == "https://reddit.com/x"));
    let link = MediaLink { service: MediaService::Twitter, url: "u".into() };
    assert!(matches!(media_step(&link), MediaStep::Extract(_, false)));
    assert!(MediaService::Reddit.should_download());
    assert!(MediaService::Tiktok.should_download());
    assert!(!MediaService::Twitter.should_download());
    assert!(!MediaService::DiscordMediaVideoLink.should_download());
}

#[test]
fn what_the_extractor_says() {
    assert!(matches!(read_extracted(MediaService::Twitter, " https://v/x.mp4\n"),
        Extracted::Link(Some(u)) if u == "https://v/x.mp4"));
    assert!(matches!(read_extracted(MediaService::Twitter, " \n"), Extracted::Link(None)));
    assert!(matches!(read_extracted(MediaService::Twitter, "https://v/x.jpg\n"), Extracted::Picture));
    assert!(matches!(read_extracted(MediaService::Reddit, "https://v/x.mp4"), Extracted::Link(None)));
    assert!(matches!(read_extracted(MediaService::Reddit, "https://v/x.webp"), Extracted::Picture));
    let v: Vec<char> = "a.svg".chars().collect();
    assert!(is_picture_url(&v));
    let v: Vec<char> = "a.svgz".chars().collect();
    assert!(!is_picture_url(&v));
}

#[test]
fn the_answer() {
    assert_eq!(media_reply(&vec![], false), None);
    assert_eq!(media_reply(&vec![], true), Some(String::new()));
    assert_eq!(media_reply(&vec!["a".into(), "b".into()], false), Some("a\nb".to_string()));
}

#[test]
fn matches_become_links() {
    let mut links = vec![MediaLink { service: MediaService::Reddit, url: "r".into() }];
    add_links(&mut links, MediaService::Twitter, None);
    assert_eq!(links.len(), 1);
    add_links(&mut links, MediaService::Twitter, Some(vec![]));
    assert_eq!(links.len(), 1);
    add_links(&mut links, MediaService::Twitter, Some(vec!["a".into(), "b".into()]));
    let got: Vec<(MediaService, &str)> =
        links.iter().map(|l| (l.service, l.url.as_str())).collect();
    assert_eq!(
        got,
        vec![
            (MediaService::Reddit, "r"),
            (MediaService::Twitter, "a"),
            (MediaService::Twitter, "b")
        ]
    );
}

#[test]
fn answers_to_media_are_remembered_until_taken() {
    let mut g = GeneratedReplies::new();
    assert_eq!(g.take(m(1)), None);
    g.remember(m(1), c(10), m(100));
    g.remember(m(2), c(20), m(200));
    g.remember(m(1), c(11), m(101));
    assert_eq!(g.take(m(1)), Some((c(11), m(101))));
    assert_eq!(g.take(m(1)), None);
    assert_eq!(g.take(m(2)), Some((c(20), m(200))));
    for n in 0..65 {
        g.remember(m(n), c(1), m(1000 + n));
    }
    assert_eq!(g.take(m(0)), None);
    assert_eq!(g.take(m(1)), Some((c(1), m(1001))));
    assert_eq!(g.take(m(64)), Some((c(1), m(1064))));
}
