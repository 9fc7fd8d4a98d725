//! The chat services that the bot speaks to, what each can do, and the
//! identifiers of their messages, channels, servers and users.

use crate::text::{
    decimal, extend_chars, find, find_from, format_u64, from_chars, lemma_decimal_round_trip,
    matches_at, parse_u64, parse_unsigned, str_eq, string_of, to_chars,
};
use vstd::prelude::*;

verus! {

/// A chat service.
#[derive(Copy, Clone, Debug, Hash, PartialEq, Eq, Structural)]
pub enum ServiceKind {
    Discord,
}

/// Messages can be edited.
pub const FEATURE_EDIT: u32 = 1;

/// Messages can carry an embed.
pub const FEATURE_EMBED: u32 = 2;

/// Messages can be reacted to.
pub const FEATURE_REACT: u32 = 4;

/// The service has voice channels.
pub const FEATURE_VOICE: u32 = 8;

/// Text is rendered as markdown.
pub const FEATURE_MARKDOWN: u32 = 16;

/// Every feature there is.
pub const FEATURE_ALL: u32 = 31;

/// A set of features, one bit each.
#[derive(Copy, Clone, Debug, Hash, PartialEq, Eq, Structural)]
pub struct ServiceFeatures {
    pub bits: u32,
}

impl ServiceFeatures {
    /// No feature.
    pub fn empty() -> (r: ServiceFeatures)
        ensures
            r.bits == 0,
    {
        ServiceFeatures { bits: 0 }
    }

    /// The features named by `bits`; bits that name none are dropped.
    pub fn from_bits_truncate(bits: u32) -> (r: ServiceFeatures)
        ensures
            r.bits == bits & FEATURE_ALL,
    {
        ServiceFeatures { bits: bits & FEATURE_ALL }
    }

    /// The bits of this set.
    pub fn bits(&self) -> (r: u32)
        ensures
            r == self.bits,
    {
        self.bits
    }

    /// Whether every feature of `other` is in this set.
    pub open spec fn has(self, other: ServiceFeatures) -> bool {
        self.bits & other.bits == other.bits
    }

    /// Whether every feature of `other` is in this set.
    pub fn contains(&self, other: ServiceFeatures) -> (r: bool)
        ensures
            r == self.has(other),
    {
        self.bits & other.bits == other.bits
    }
}

/// The long name of a service.
pub open spec fn service_id(kind: ServiceKind) -> Seq<char> {
    match kind {
        ServiceKind::Discord => "discord"@,
    }
}

/// The short name of a service.
pub open spec fn service_id_short(kind: ServiceKind) -> Seq<char> {
    match kind {
        ServiceKind::Discord => "d"@,
    }
}

impl ServiceKind {
    /// The features of this service.
    pub open spec fn features(self) -> ServiceFeatures {
        match self {
            ServiceKind::Discord => ServiceFeatures { bits: FEATURE_ALL },
        }
    }

    /// The service of that long name.
    pub fn from_str(s: &str) -> (r: Option<ServiceKind>)
        ensures
            r == if s@ == service_id(ServiceKind::Discord) {
                Some(ServiceKind::Discord)
            } else {
                None
            },
    {
        if str_eq(s, "discord") {
            Some(ServiceKind::Discord)
        } else {
            None
        }
    }

    /// Whether this service has every feature of `feature`.
    pub fn supports_feature(&self, feature: ServiceFeatures) -> (r: bool)
        ensures
            r == self.features().has(feature),
    {
        match self {
            ServiceKind::Discord => ServiceFeatures { bits: FEATURE_ALL }.contains(feature),
        }
    }

    /// The long name of this service.
    pub fn id(&self) -> (r: &'static str)
        ensures
            r@ == service_id(*self),
    {
        match self {
            ServiceKind::Discord => "discord",
        }
    }

    /// The short name of this service.
    pub fn id_short(&self) -> (r: &'static str)
        ensures
            r@ == service_id_short(*self),
    {
        match self {
            ServiceKind::Discord => "d",
        }
    }
}

/// Why a text is no identifier.
#[derive(Copy, Clone, Debug, PartialEq, Eq, Structural)]
pub enum IdErrorKind {
    /// No service has the name in front of the colon.
    UnknownService,
    /// The text holds no colon.
    SeparatorMissing,
    /// What follows the colon is no number that fits in 64 bits.
    InvalidNumber,
}

/// A text that is no identifier: the reason, and the part at fault.
#[derive(Clone, Debug)]
pub struct IdError {
    pub kind: IdErrorKind,
    pub text: String,
}

impl IdError {
    /// The error in words.
    pub fn message(&self) -> (r: String)
        ensures
            r@ == id_error_message(self.kind, self.text@),
    {
        let mut out = match self.kind {
            IdErrorKind::UnknownService => to_chars("unknown service \""),
            IdErrorKind::SeparatorMissing => to_chars("id seperator missing: \""),
            IdErrorKind::InvalidNumber => to_chars("invalid number: \""),
        };
        let text = to_chars(self.text.as_str());
        extend_chars(&mut out, &text);
        out.push('"');
        string_of(&out)
    }
}

/// The words of an error.
pub open spec fn id_error_message(kind: IdErrorKind, text: Seq<char>) -> Seq<char> {
    let head = match kind {
        IdErrorKind::UnknownService => "unknown service \""@,
        IdErrorKind::SeparatorMissing => "id seperator missing: \""@,
        IdErrorKind::InvalidNumber => "invalid number: \""@,
    };
    (head + text).push('"')
}

/// An identifier as text: the service's name, a colon, the number.
pub open spec fn id_text(name: Seq<char>, id: u64) -> Seq<char> {
    name + seq![':'] + decimal(id as nat)
}

/// What a text names: a service and a number, or the reason why not and
/// the part at fault. The service stands in front of the first colon,
/// under its long or its short name; the number behind it.
pub open spec fn parsed_id(text: Seq<char>) -> Result<(ServiceKind, u64), (IdErrorKind, Seq<char>)> {
    match find_from(text, seq![':'], 0) {
        None => Err((IdErrorKind::SeparatorMissing, text)),
        Some(sep) => {
            let before = text.subrange(0, sep);
            let after = text.subrange(sep + 1, text.len() as int);
            if before == service_id(ServiceKind::Discord) || before == service_id_short(
                ServiceKind::Discord,
            ) {
                match parse_unsigned(after, u64::MAX as nat) {
                    Some(n) => Ok((ServiceKind::Discord, n as u64)),
                    None => Err((IdErrorKind::InvalidNumber, after)),
                }
            } else {
                Err((IdErrorKind::UnknownService, before))
            }
        },
    }
}

/// Whether `r` is what `parsed_id` says of a text.
pub open spec fn is_parsed(
    r: Result<(ServiceKind, u64), IdError>,
    model: Result<(ServiceKind, u64), (IdErrorKind, Seq<char>)>,
) -> bool {
    match r {
        Ok(pair) => model == Ok::<(ServiceKind, u64), (IdErrorKind, Seq<char>)>(pair),
        Err(e) => model == Err::<(ServiceKind, u64), (IdErrorKind, Seq<char>)>((e.kind, e.text@)),
    }
}

/// Reads an identifier of any kind.
pub fn parse_service_id(text: &str) -> (r: Result<(ServiceKind, u64), IdError>)
    ensures
        is_parsed(r, parsed_id(text@)),
{
    let chars = to_chars(text);
    let mut colon: Vec<char> = Vec::new();
    colon.push(':');
    assert(colon@ =~= seq![':']);
    match find(&chars, &colon, 0) {
        None => Err(IdError { kind: IdErrorKind::SeparatorMissing, text: string_of(&chars) }),
        Some(sep) => {
            proof {
                crate::text::lemma_find_from(chars@, colon@, 0);
            }
            let before = from_chars(&chars, 0, sep);
            let after = from_chars(&chars, sep + 1, chars.len());
            if str_eq(before.as_str(), "discord") || str_eq(before.as_str(), "d") {
                let digits = to_chars(after.as_str());
                match parse_u64(&digits) {
                    Some(n) => Ok((ServiceKind::Discord, n)),
                    None => Err(IdError { kind: IdErrorKind::InvalidNumber, text: after }),
                }
            } else {
                Err(IdError { kind: IdErrorKind::UnknownService, text: before })
            }
        },
    }
}

/// Writes an identifier.
pub fn format_service_id(name: &str, id: u64) -> (r: String)
    ensures
        r@ == id_text(name@, id),
{
    let mut out = to_chars(name);
    out.push(':');
    let digits = format_u64(id);
    extend_chars(&mut out, &digits);
    assert(out@ =~= id_text(name@, id));
    string_of(&out)
}

/// A colon that no colon precedes is the first.
pub proof fn lemma_first_colon(text: Seq<char>, at: int)
    requires
        0 <= at < text.len(),
        text[at] == ':',
        forall|i: int| 0 <= i < at ==> text[i] != ':',
    ensures
        find_from(text, seq![':'], 0) == Some(at),
{
    crate::text::lemma_find_from(text, seq![':'], 0);
    assert(text.subrange(at, at + 1) =~= seq![':']);
    assert(matches_at(text, seq![':'], at));
    match find_from(text, seq![':'], 0) {
        Some(i) => {
            if i < at {
                assert(text.subrange(i, i + 1)[0] == ':');
            }
        },
        None => {},
    }
}

/// Reading back an identifier that was written under a service's long or
/// short name gives the service and the number.
pub proof fn law_id_round_trip(kind: ServiceKind, id: u64, short: bool)
    ensures
        parsed_id(
            id_text(
                if short {
                    service_id_short(kind)
                } else {
                    service_id(kind)
                },
                id,
            ),
        ) == Ok::<(ServiceKind, u64), (IdErrorKind, Seq<char>)>((kind, id)),
{
    reveal_strlit("discord");
    reveal_strlit("d");
    let name = if short {
        service_id_short(kind)
    } else {
        service_id(kind)
    };
    let text = id_text(name, id);
    let at = name.len() as int;
    lemma_first_colon(text, at);
    lemma_decimal_round_trip(id as nat);
    assert(text.subrange(0, at) =~= name);
    assert(text.subrange(at + 1, text.len() as int) =~= decimal(id as nat));
}

/// The identifier of a message.
#[derive(Copy, Clone, Debug, Hash, PartialEq, Eq, Structural)]
pub enum MessageId {
    Discord(u64),
}

/// The identifier of a channel.
#[derive(Copy, Clone, Debug, Hash, PartialEq, Eq, Structural)]
pub enum ChannelId {
    Discord(u64),
}

/// The identifier of a server.
#[derive(Copy, Clone, Debug, Hash, PartialEq, Eq, Structural)]
pub enum ServerId {
    Discord(u64),
}

/// The identifier of a user.
#[derive(Copy, Clone, Debug, Hash, PartialEq, Eq, Structural)]
pub enum UserId {
    Discord(u64),
}

impl MessageId {
    /// The service that the message is on.
    pub open spec fn kind(self) -> ServiceKind {
        match self {
            MessageId::Discord(_) => ServiceKind::Discord,
        }
    }

    /// The number of the message on its service.
    pub open spec fn number(self) -> u64 {
        match self {
            MessageId::Discord(id) => id,
        }
    }

    /// The identifier under the service's long name.
    pub fn to_str(&self) -> (r: String)
        ensures
            r@ == id_text(service_id(self.kind()), self.number()),
    {
        match self {
            MessageId::Discord(id) => format_service_id("discord", *id),
        }
    }

    /// The identifier under the service's short name.
    pub fn to_short_str(&self) -> (r: String)
        ensures
            r@ == id_text(service_id_short(self.kind()), self.number()),
    {
        match self {
            MessageId::Discord(id) => format_service_id("d", *id),
        }
    }

    /// Reads an identifier.
    pub fn from_str(text: &str) -> (r: Result<MessageId, IdError>)
        ensures
            r matches Ok(id) ==> parsed_id(text@) == Ok::<
                (ServiceKind, u64),
                (IdErrorKind, Seq<char>),
            >((id.kind(), id.number())),
            r matches Err(e) ==> parsed_id(text@) == Err::<
                (ServiceKind, u64),
                (IdErrorKind, Seq<char>),
            >((e.kind, e.text@)),
    {
        match parse_service_id(text) {
            Ok((ServiceKind::Discord, id)) => Ok(MessageId::Discord(id)),
            Err(e) => Err(e),
        }
    }

    /// The service that the message is on.
    pub fn service_kind(&self) -> (r: ServiceKind)
        ensures
            r == self.kind(),
    {
        match self {
            MessageId::Discord(_) => ServiceKind::Discord,
        }
    }
}

impl ChannelId {
    /// The service that the channel is on.
    pub open spec fn kind(self) -> ServiceKind {
        match self {
            ChannelId::Discord(_) => ServiceKind::Discord,
        }
    }

    /// The number of the channel on its service.
    pub open spec fn number(self) -> u64 {
        match self {
            ChannelId::Discord(id) => id,
        }
    }

    /// The identifier under the service's long name.
    pub fn to_str(&self) -> (r: String)
        ensures
            r@ == id_text(service_id(self.kind()), self.number()),
    {
        match self {
            ChannelId::Discord(id) => format_service_id("discord", *id),
        }
    }

    /// The identifier under the service's short name.
    pub fn to_short_str(&self) -> (r: String)
        ensures
            r@ == id_text(service_id_short(self.kind()), self.number()),
    {
        match self {
            ChannelId::Discord(id) => format_service_id("d", *id),
        }
    }

    /// Reads an identifier.
    pub fn from_str(text: &str) -> (r: Result<ChannelId, IdError>)
        ensures
            r matches Ok(id) ==> parsed_id(text@) == Ok::<
                (ServiceKind, u64),
                (IdErrorKind, Seq<char>),
            >((id.kind(), id.number())),
            r matches Err(e) ==> parsed_id(text@) == Err::<
                (ServiceKind, u64),
                (IdErrorKind, Seq<char>),
            >((e.kind, e.text@)),
    {
        match parse_service_id(text) {
            Ok((ServiceKind::Discord, id)) => Ok(ChannelId::Discord(id)),
            Err(e) => Err(e),
        }
    }

    /// The service that the channel is on.
    pub fn service_kind(&self) -> (r: ServiceKind)
        ensures
            r == self.kind(),
    {
        match self {
            ChannelId::Discord(_) => ServiceKind::Discord,
        }
    }
}

impl ServerId {
    /// The service that the server is on.
    pub open spec fn kind(self) -> ServiceKind {
        match self {
            ServerId::Discord(_) => ServiceKind::Discord,
        }
    }

    /// The number of the server on its service.
    pub open spec fn number(self) -> u64 {
        match self {
            ServerId::Discord(id) => id,
        }
    }

    /// The identifier under the service's long name.
    pub fn to_str(&self) -> (r: String)
        ensures
            r@ == id_text(service_id(self.kind()), self.number()),
    {
        match self {
            ServerId::Discord(id) => format_service_id("discord", *id),
        }
    }

    /// The identifier under the service's short name.
    pub fn to_short_str(&self) -> (r: String)
        ensures
            r@ == id_text(service_id_short(self.kind()), self.number()),
    {
        match self {
            ServerId::Discord(id) => format_service_id("d", *id),
        }
    }

    /// Reads an identifier.
    pub fn from_str(text: &str) -> (r: Result<ServerId, IdError>)
        ensures
            r matches Ok(id) ==> parsed_id(text@) == Ok::<
                (ServiceKind, u64),
                (IdErrorKind, Seq<char>),
            >((id.kind(), id.number())),
            r matches Err(e) ==> parsed_id(text@) == Err::<
                (ServiceKind, u64),
                (IdErrorKind, Seq<char>),
            >((e.kind, e.text@)),
    {
        match parse_service_id(text) {
            Ok((ServiceKind::Discord, id)) => Ok(ServerId::Discord(id)),
            Err(e) => Err(e),
        }
    }

    /// The service that the server is on.
    pub fn service_kind(&self) -> (r: ServiceKind)
        ensures
            r == self.kind(),
    {
        match self {
            ServerId::Discord(_) => ServiceKind::Discord,
        }
    }
}

impl UserId {
    /// The service that the user is on.
    pub open spec fn kind(self) -> ServiceKind {
        match self {
            UserId::Discord(_) => ServiceKind::Discord,
        }
    }

    /// The number of the user on its service.
    pub open spec fn number(self) -> u64 {
        match self {
            UserId::Discord(id) => id,
        }
    }

    /// The identifier under the service's long name.
    pub fn to_str(&self) -> (r: String)
        ensures
            r@ == id_text(service_id(self.kind()), self.number()),
    {
        match self {
            UserId::Discord(id) => format_service_id("discord", *id),
        }
    }

    /// The identifier under the service's short name.
    pub fn to_short_str(&self) -> (r: String)
        ensures
            r@ == id_text(service_id_short(self.kind()), self.number()),
    {
        match self {
            UserId::Discord(id) => format_service_id("d", *id),
        }
    }

    /// Reads an identifier.
    pub fn from_str(text: &str) -> (r: Result<UserId, IdError>)
        ensures
            r matches Ok(id) ==> parsed_id(text@) == Ok::<
                (ServiceKind, u64),
                (IdErrorKind, Seq<char>),
            >((id.kind(), id.number())),
            r matches Err(e) ==> parsed_id(text@) == Err::<
                (ServiceKind, u64),
                (IdErrorKind, Seq<char>),
            >((e.kind, e.text@)),
    {
        match parse_service_id(text) {
            Ok((ServiceKind::Discord, id)) => Ok(UserId::Discord(id)),
            Err(e) => Err(e),
        }
    }

    /// The service that the user is on.
    pub fn service_kind(&self) -> (r: ServiceKind)
        ensures
            r == self.kind(),
    {
        match self {
            UserId::Discord(_) => ServiceKind::Discord,
        }
    }
}

/// A user of a chat service.
pub trait User {
    /// The user's identifier.
    spec fn user_id(&self) -> UserId;

    /// The user's full name on the service.
    spec fn full_name(&self) -> Seq<char>;

    /// The name that the user goes by.
    spec fn nick_name(&self) -> Seq<char>;

    /// Where the user's picture is found, if they have one.
    spec fn picture(&self) -> Option<Seq<char>>;

    /// Whether the user is a bot, if the service tells.
    spec fn is_bot(&self) -> Option<bool>;

    fn id(&self) -> (r: UserId)
        ensures
            r == self.user_id(),
    ;

    fn name(&self) -> (r: &str)
        ensures
            r@ == self.full_name(),
    ;

    fn nick(&self) -> (r: &str)
        ensures
            r@ == self.nick_name(),
    ;

    fn avatar(&self) -> (r: Option<&str>)
        ensures
            r is Some == self.picture() is Some,
            r matches Some(a) ==> Some(a@) == self.picture(),
    ;

    fn bot(&self) -> (r: Option<bool>)
        ensures
            r == self.is_bot(),
    ;

    /// The service that the user is on.
    fn service(&self) -> (r: ServiceKind)
        ensures
            r == self.user_id().kind(),
    ;
}

/// A server of a chat service.
pub trait Server {
    /// The server's identifier.
    spec fn server_id(&self) -> ServerId;

    /// The server's name.
    spec fn server_name(&self) -> Seq<char>;

    fn id(&self) -> (r: ServerId)
        ensures
            r == self.server_id(),
    ;

    fn name(&self) -> (r: &str)
        ensures
            r@ == self.server_name(),
    ;

    /// The service that the server is on.
    fn service(&self) -> (r: ServiceKind)
        ensures
            r == self.server_id().kind(),
    ;
}

/// What a service tells of a user.
#[derive(Clone, Debug)]
pub struct ServiceUser {
    pub id: UserId,
    pub name: String,
    pub nick: String,
    pub avatar: Option<String>,
    pub bot: Option<bool>,
}

impl User for ServiceUser {
    open spec fn user_id(&self) -> UserId {
        self.id
    }

    open spec fn full_name(&self) -> Seq<char> {
        self.name@
    }

    open spec fn nick_name(&self) -> Seq<char> {
        self.nick@
    }

    open spec fn picture(&self) -> Option<Seq<char>> {
        match self.avatar {
            Some(a) => Some(a@),
            None => None,
        }
    }

    open spec fn is_bot(&self) -> Option<bool> {
        self.bot
    }

    fn id(&self) -> (r: UserId) {
        self.id
    }

    fn name(&self) -> (r: &str) {
        self.name.as_str()
    }

    fn nick(&self) -> (r: &str) {
        self.nick.as_str()
    }

    fn avatar(&self) -> (r: Option<&str>) {
        match &self.avatar {
            Some(a) => Some(a.as_str()),
            None => None,
        }
    }

    fn bot(&self) -> (r: Option<bool>) {
        self.bot
    }

    fn service(&self) -> (r: ServiceKind) {
        self.id.service_kind()
    }
}

/// What a service tells of a server.
#[derive(Clone, Debug)]
pub struct ServiceServer {
    pub id: ServerId,
    pub name: String,
}

impl Server for ServiceServer {
    open spec fn server_id(&self) -> ServerId {
        self.id
    }

    open spec fn server_name(&self) -> Seq<char> {
        self.name@
    }

    fn id(&self) -> (r: ServerId) {
        self.id
    }

    fn name(&self) -> (r: &str) {
        self.name.as_str()
    }

    fn service(&self) -> (r: ServiceKind) {
        self.id.service_kind()
    }
}

/// The name of a Discord user as the bot shows it: the name, a hash sign
/// and the number that tells users of one name apart.
pub open spec fn discord_name(name: Seq<char>, discriminator: u16) -> Seq<char> {
    name + seq!['#'] + decimal(discriminator as nat)
}

/// The name of a Discord user as the bot shows it.
pub fn discord_user_name(name: &str, discriminator: u16) -> (r: String)
    ensures
        r@ == discord_name(name@, discriminator),
{
    let mut out = to_chars(name);
    out.push('#');
    extend_chars(&mut out, &format_u64(discriminator as u64));
    assert(out@ =~= discord_name(name@, discriminator));
    string_of(&out)
}

/// Whether a message comes from the bot itself or from another bot, and
/// so is passed over.
pub fn is_from_bot(author: UserId, current_user: UserId, author_is_bot: Option<bool>) -> (r: bool)
    ensures
        r == (author == current_user || author_is_bot == Some(true)),
{
    author == current_user || match author_is_bot {
        Some(b) => b,
        None => false,
    }
}

} // verus!
