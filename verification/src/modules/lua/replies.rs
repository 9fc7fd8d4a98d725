//! The replies that the bot made to each request for a run in the
//! sandbox, and the answers that it gave to links to media, so that they
//! can be taken back together with the message that asked for them. Only
//! the latest requests are remembered.

use crate::services::{ChannelId, MessageId};
use vstd::prelude::*;

verus! {

/// How many requests are remembered.
pub const REMEMBERED_REQUESTS: usize = 64;

/// What is remembered of one request.
#[derive(Clone, Debug)]
pub struct ReplyLog {
    /// Whether the requester took the request back.
    pub abort: bool,
    /// The replies, each by its channel and its message.
    pub replies: Vec<(ChannelId, MessageId)>,
}

/// A log with its replies as a sequence.
pub struct ReplyLogView {
    pub abort: bool,
    pub replies: Seq<(ChannelId, MessageId)>,
}

impl View for ReplyLog {
    type V = ReplyLogView;

    open spec fn view(&self) -> ReplyLogView {
        ReplyLogView { abort: self.abort, replies: self.replies@ }
    }
}

/// The hasher that a cache of the `lru` crate uses unless it is given
/// another. Nothing is known of it.
#[verifier::external_type_specification]
#[verifier::external_body]
pub struct ExDefaultHasher(lru::DefaultHasher);

/// `lru::LruCache`: a cache that holds a bounded number of entries and
/// lets go of the one used longest ago. What it holds is known only by
/// what is said of its methods below.
#[verifier::external_type_specification]
#[verifier::external_body]
#[verifier::reject_recursive_types(K)]
#[verifier::reject_recursive_types(V)]
#[verifier::reject_recursive_types(S)]
pub struct ExLruCache<K, V, S>(lru::LruCache<K, V, S>);

/// What a cache holds: each request by the number of its message, with
/// its log, the one used last first.
pub uninterp spec fn cache_entries(cache: lru::LruCache<u64, ReplyLog>) -> Seq<(u64, ReplyLogView)>;

/// How many requests a cache holds at most.
pub uninterp spec fn cache_cap(cache: lru::LruCache<u64, ReplyLog>) -> nat;

/// Where the first entry of a key stands.
pub open spec fn position(entries: Seq<(u64, ReplyLogView)>, key: u64) -> Option<int>
    decreases entries.len(),
{
    if entries.len() == 0 {
        None
    } else if entries[0].0 == key {
        Some(0)
    } else {
        match position(entries.drop_first(), key) {
            Some(i) => Some(i + 1),
            None => None,
        }
    }
}

/// The log of a key, if the cache holds one.
pub open spec fn log_of(entries: Seq<(u64, ReplyLogView)>, key: u64) -> Option<ReplyLogView> {
    match position(entries, key) {
        Some(i) => Some(entries[i].1),
        None => None,
    }
}

/// The entries once a key was used: its entry stands first.
pub open spec fn touched(entries: Seq<(u64, ReplyLogView)>, key: u64) -> Seq<(u64, ReplyLogView)> {
    match position(entries, key) {
        Some(i) => seq![entries[i]] + entries.remove(i),
        None => entries,
    }
}

/// The entries once a log was put under a key. The new entry stands
/// first. It takes the place of an older one of the same key; else, if
/// the cache is full, the entry used longest ago leaves. A cache that
/// holds nothing at most stays empty.
pub open spec fn put_into(
    entries: Seq<(u64, ReplyLogView)>,
    cap: nat,
    key: u64,
    log: ReplyLogView,
) -> Seq<(u64, ReplyLogView)> {
    match position(entries, key) {
        Some(i) => seq![(key, log)] + entries.remove(i),
        None => if cap == 0 {
            entries
        } else if entries.len() == cap {
            seq![(key, log)] + entries.drop_last()
        } else {
            seq![(key, log)] + entries
        },
    }
}

/// `LruCache::new`: an empty cache that holds at most `cap` entries.
#[verifier::external_body]
fn cache_new(cap: usize) -> (cache: lru::LruCache<u64, ReplyLog>)
    ensures
        cache_entries(cache) == Seq::<(u64, ReplyLogView)>::empty(),
        cache_cap(cache) == cap,
{
    lru::LruCache::new(cap)
}

/// `LruCache::get`, handing out a copy of the log: the log of the key if
/// the cache holds one, and that entry then stands first.
#[verifier::external_body]
fn cache_get(cache: &mut lru::LruCache<u64, ReplyLog>, key: u64) -> (r: Option<ReplyLog>)
    ensures
        cache_entries(*final(cache)) == touched(cache_entries(*old(cache)), key),
        cache_cap(*final(cache)) == cache_cap(*old(cache)),
        r is Some == log_of(cache_entries(*old(cache)), key) is Some,
        r matches Some(log) ==> Some(log@) == log_of(cache_entries(*old(cache)), key),
{
    cache.get(&key).cloned()
}

/// `LruCache::put`: the log stands under the key, first of all entries;
/// an older entry of the key is replaced, and where the cache was full
/// and held none, the entry used longest ago has left.
#[verifier::external_body]
fn cache_put(cache: &mut lru::LruCache<u64, ReplyLog>, key: u64, log: ReplyLog)
    ensures
        cache_entries(*final(cache)) == put_into(
            cache_entries(*old(cache)),
            cache_cap(*old(cache)),
            key,
            log@,
        ),
        cache_cap(*final(cache)) == cache_cap(*old(cache)),
{
    cache.put(key, log);
}

/// The entries once a key was taken out.
pub open spec fn popped(entries: Seq<(u64, ReplyLogView)>, key: u64) -> Seq<(u64, ReplyLogView)> {
    match position(entries, key) {
        Some(i) => entries.remove(i),
        None => entries,
    }
}

/// `LruCache::pop`: the log of the key if the cache holds one, and that
/// entry has then left the cache; the other entries stay as they stand.
#[verifier::external_body]
fn cache_pop(cache: &mut lru::LruCache<u64, ReplyLog>, key: u64) -> (r: Option<ReplyLog>)
    ensures
        cache_entries(*final(cache)) == popped(cache_entries(*old(cache)), key),
        cache_cap(*final(cache)) == cache_cap(*old(cache)),
        r is Some == log_of(cache_entries(*old(cache)), key) is Some,
        r matches Some(log) ==> Some(log@) == log_of(cache_entries(*old(cache)), key),
{
    cache.pop(&key)
}

/// The number that a message is remembered under.
pub open spec fn key_of(id: MessageId) -> u64 {
    id.number()
}

/// The replies to the latest requests.
pub struct SandboxReplies {
    cache: lru::LruCache<u64, ReplyLog>,
}

impl SandboxReplies {
    /// The requests that are remembered, the one used last first.
    pub closed spec fn entries(&self) -> Seq<(u64, ReplyLogView)> {
        cache_entries(self.cache)
    }

    /// How many requests are remembered at most.
    pub closed spec fn cap(&self) -> nat {
        cache_cap(self.cache)
    }

    /// Nothing is remembered yet.
    pub fn new() -> (r: SandboxReplies)
        ensures
            r.entries() == Seq::<(u64, ReplyLogView)>::empty(),
            r.cap() == REMEMBERED_REQUESTS,
    {
        SandboxReplies { cache: cache_new(REMEMBERED_REQUESTS) }
    }

    /// Whether the reader of a request's output is to stop: the requester
    /// took the request back.
    pub fn should_abort(&mut self, request: MessageId) -> (r: bool)
        ensures
            r == (log_of(old(self).entries(), key_of(request)) matches Some(log) && log.abort),
            final(self).entries() == touched(old(self).entries(), key_of(request)),
            final(self).cap() == old(self).cap(),
    {
        let key = match request {
            MessageId::Discord(n) => n,
        };
        match cache_get(&mut self.cache, key) {
            Some(log) => log.abort,
            None => false,
        }
    }

    /// Remembers a reply to a request.
    pub fn add_reply(&mut self, request: MessageId, channel: ChannelId, reply: MessageId)
        ensures
            final(self).cap() == old(self).cap(),
            final(self).entries() == put_into(
                old(self).entries(),
                old(self).cap(),
                key_of(request),
                match log_of(old(self).entries(), key_of(request)) {
                    Some(log) => ReplyLogView {
                        replies: log.replies.push((channel, reply)),
                        ..log
                    },
                    None => ReplyLogView { abort: false, replies: seq![(channel, reply)] },
                },
            ),
    {
        let key = match request {
            MessageId::Discord(n) => n,
        };
        let ghost before = self.entries();
        let mut log = match cache_get(&mut self.cache, key) {
            Some(log) => log,
            None => ReplyLog { abort: false, replies: Vec::new() },
        };
        log.replies.push((channel, reply));
        proof {
            lemma_touched(before, key);
            if log_of(before, key) is None {
                assert(log.replies@ =~= seq![(channel, reply)]);
            }
        }
        cache_put(&mut self.cache, key, log);
    }

    /// The requester takes a request back. Says whether the request is
    /// remembered; if it is, its reader is to stop.
    pub fn request_abort(&mut self, request: MessageId) -> (r: bool)
        ensures
            final(self).cap() == old(self).cap(),
            r == log_of(old(self).entries(), key_of(request)) is Some,
            !r ==> final(self).entries() == old(self).entries(),
            r ==> final(self).entries() == put_into(
                old(self).entries(),
                old(self).cap(),
                key_of(request),
                ReplyLogView {
                    abort: true,
                    ..log_of(old(self).entries(), key_of(request)).unwrap()
                },
            ),
    {
        let key = match request {
            MessageId::Discord(n) => n,
        };
        let ghost before = self.entries();
        match cache_get(&mut self.cache, key) {
            Some(mut log) => {
                log.abort = true;
                proof {
                    lemma_touched(before, key);
                }
                cache_put(&mut self.cache, key, log);
                true
            },
            None => false,
        }
    }

    /// Hands out the replies to a request, to be deleted, and forgets
    /// them.
    pub fn take_replies(&mut self, request: MessageId) -> (r: Vec<(ChannelId, MessageId)>)
        ensures
            final(self).cap() == old(self).cap(),
            r@ == match log_of(old(self).entries(), key_of(request)) {
                Some(log) => log.replies,
                None => Seq::empty(),
            },
            log_of(old(self).entries(), key_of(request)) is None ==> final(self).entries()
                == old(self).entries(),
            log_of(old(self).entries(), key_of(request)) is Some ==> final(self).entries()
                == put_into(
                old(self).entries(),
                old(self).cap(),
                key_of(request),
                ReplyLogView {
                    replies: Seq::empty(),
                    ..log_of(old(self).entries(), key_of(request)).unwrap()
                },
            ),
    {
        let key = match request {
            MessageId::Discord(n) => n,
        };
        let ghost before = self.entries();
        match cache_get(&mut self.cache, key) {
            Some(log) => {
                let rest = ReplyLog { abort: log.abort, replies: Vec::new() };
                proof {
                    lemma_touched(before, key);
                }
                cache_put(&mut self.cache, key, rest);
                log.replies
            },
            None => Vec::new(),
        }
    }
}

/// To put a log under a key that was just used is to put it under the
/// key as it stood before.
pub proof fn lemma_touched(entries: Seq<(u64, ReplyLogView)>, key: u64)
    ensures
        forall|cap: nat, log: ReplyLogView| #[trigger]
            put_into(touched(entries, key), cap, key, log) == put_into(entries, cap, key, log),
{
    lemma_position(entries, key);
    match position(entries, key) {
        None => {},
        Some(i) => {
            let moved = touched(entries, key);
            assert(moved[0] == entries[i]);
            assert(position(moved, key) == Some(0int));
            assert(moved.remove(0) =~= entries.remove(i));
        },
    }
}

/// A position that is found holds the key.
pub proof fn lemma_position(entries: Seq<(u64, ReplyLogView)>, key: u64)
    ensures
        position(entries, key) matches Some(i) ==> 0 <= i < entries.len() && entries[i].0 == key,
    decreases entries.len(),
{
    if entries.len() > 0 && entries[0].0 != key {
        lemma_position(entries.drop_first(), key);
    }
}

/// The answer that is remembered for a message, if one is: the first
/// reply of its log.
pub open spec fn answer_of(entries: Seq<(u64, ReplyLogView)>, key: u64) -> Option<
    (ChannelId, MessageId),
> {
    match log_of(entries, key) {
        Some(log) => if log.replies.len() > 0 {
            Some(log.replies[0])
        } else {
            None
        },
        None => None,
    }
}

/// The answers that the bot gave to the latest messages with links to
/// media, one to a message.
pub struct GeneratedReplies {
    cache: lru::LruCache<u64, ReplyLog>,
}

impl GeneratedReplies {
    /// The messages that are remembered, the one used last first, each
    /// with its answer.
    pub closed spec fn entries(&self) -> Seq<(u64, ReplyLogView)> {
        cache_entries(self.cache)
    }

    /// How many messages are remembered at most.
    pub closed spec fn cap(&self) -> nat {
        cache_cap(self.cache)
    }

    /// Nothing is remembered yet.
    pub fn new() -> (r: GeneratedReplies)
        ensures
            r.entries() == Seq::<(u64, ReplyLogView)>::empty(),
            r.cap() == REMEMBERED_REQUESTS,
    {
        GeneratedReplies { cache: cache_new(REMEMBERED_REQUESTS) }
    }

    /// Remembers the answer to a message, in place of an older answer to
    /// it.
    pub fn remember(&mut self, request: MessageId, channel: ChannelId, reply: MessageId)
        ensures
            final(self).cap() == old(self).cap(),
            final(self).entries() == put_into(
                old(self).entries(),
                old(self).cap(),
                key_of(request),
                ReplyLogView { abort: false, replies: seq![(channel, reply)] },
            ),
    {
        let key = match request {
            MessageId::Discord(n) => n,
        };
        let mut replies: Vec<(ChannelId, MessageId)> = Vec::new();
        replies.push((channel, reply));
        assert(replies@ =~= seq![(channel, reply)]);
        cache_put(&mut self.cache, key, ReplyLog { abort: false, replies });
    }

    /// A message was deleted: hands out the answer to it, to be deleted
    /// as well, and forgets the message.
    pub fn take(&mut self, request: MessageId) -> (r: Option<(ChannelId, MessageId)>)
        ensures
            final(self).cap() == old(self).cap(),
            final(self).entries() == popped(old(self).entries(), key_of(request)),
            r == answer_of(old(self).entries(), key_of(request)),
    {
        let key = match request {
            MessageId::Discord(n) => n,
        };
        match cache_pop(&mut self.cache, key) {
            Some(log) => {
                if log.replies.len() > 0 {
                    Some(log.replies[0])
                } else {
                    None
                }
            },
            None => None,
        }
    }
}

} // verus!
