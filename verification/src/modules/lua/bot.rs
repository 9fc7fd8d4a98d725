//! What the scripts see of users, channels, servers, messages and tags:
//! the fields that they can read by name, and how each is shown as text.

use crate::bot::db::{Tag, Uid, User as DbUser};
use crate::message::{Attachment, MessageSettings};
use crate::services::{
    id_text, service_id, service_id_short, ChannelId, MessageId, ServerId, ServiceKind, User,
    UserId, FEATURE_EDIT, FEATURE_EMBED, FEATURE_MARKDOWN, FEATURE_REACT,
};
use crate::text::{
    extend_chars, format_i64, signed_decimal, str_eq, string_of, to_chars,
};
use vstd::prelude::*;

verus! {

/// The things among a value's fields that are values of their own with
/// fields to read.
#[derive(Copy, Clone, Debug, PartialEq, Eq, Structural)]
pub enum ObjectKind {
    Author,
    Channel,
    Server,
    Attachments,
}

/// What a script gets when it reads a field.
#[derive(Clone, Debug, PartialEq, Eq)]
pub enum GuestValue {
    /// Nothing: there is no such field, or it holds nothing.
    Nil,
    Boolean(bool),
    Number(i64),
    Count(u64),
    Text(String),
    /// A width and a height.
    Size(u64, u64),
    /// A value of its own, which the engine hands over.
    Object(ObjectKind),
}

/// A value with its text as a sequence of characters.
pub enum GuestValueView {
    Nil,
    Boolean(bool),
    Number(i64),
    Count(u64),
    Text(Seq<char>),
    Size(u64, u64),
    Object(ObjectKind),
}

impl View for GuestValue {
    type V = GuestValueView;

    open spec fn view(&self) -> GuestValueView {
        match self {
            GuestValue::Nil => GuestValueView::Nil,
            GuestValue::Boolean(b) => GuestValueView::Boolean(*b),
            GuestValue::Number(n) => GuestValueView::Number(*n),
            GuestValue::Count(n) => GuestValueView::Count(*n),
            GuestValue::Text(s) => GuestValueView::Text(s@),
            GuestValue::Size(w, h) => GuestValueView::Size(*w, *h),
            GuestValue::Object(k) => GuestValueView::Object(*k),
        }
    }
}

/// A text or nothing, as a value.
pub open spec fn text_or_nil(text: Option<Seq<char>>) -> GuestValueView {
    match text {
        Some(t) => GuestValueView::Text(t),
        None => GuestValueView::Nil,
    }
}

fn text_value(text: &str) -> (r: GuestValue)
    ensures
        r@ == GuestValueView::Text(text@),
{
    GuestValue::Text(string_of(&to_chars(text)))
}

/// What a service told of a user when the scripts got to see them.
#[derive(Clone, Debug)]
pub struct BotUserInner {
    pub name: String,
    pub nick: String,
    pub avatar: Option<String>,
    pub id: UserId,
    pub restricted: bool,
}

/// A user as the scripts see them: what the service tells and what the
/// store knows.
#[derive(Clone, Debug)]
pub struct BotUser {
    pub inner: BotUserInner,
    pub user: DbUser,
}

/// How a user is shown as text.
pub open spec fn user_text(name: Seq<char>, id: UserId, uid: Uid) -> Seq<char> {
    "User { name = \""@ + name + "\", id = \""@ + id_text(service_id(id.kind()), id.number())
        + "\", uid = "@ + signed_decimal(uid as int) + " }"@
}

/// The field of a user that a name stands for.
pub open spec fn user_field(user: BotUser, key: Seq<char>) -> GuestValueView {
    if key == "id"@ {
        GuestValueView::Text(id_text(service_id_short(user.inner.id.kind()), user.inner.id.number()))
    } else if key == "avatar"@ {
        match user.inner.avatar {
            Some(a) => GuestValueView::Text(a@),
            None => GuestValueView::Nil,
        }
    } else if key == "uid"@ {
        GuestValueView::Number(user.user.uid)
    } else if key == "name"@ {
        GuestValueView::Text(user.inner.name@)
    } else if key == "nick"@ {
        GuestValueView::Text(user.inner.nick@)
    } else if key == "role"@ {
        GuestValueView::Text(user.user.role@)
    } else if key == "restricted"@ {
        GuestValueView::Boolean(user.inner.restricted)
    } else {
        GuestValueView::Nil
    }
}

impl BotUser {
    /// The user as the scripts see them, from what the service tells,
    /// what the store knows, and whether the user is barred from the bot.
    pub fn from_user<U: User>(service_user: &U, user: DbUser, restricted: bool) -> (r: BotUser)
        ensures
            r.user == user,
            r.inner.restricted == restricted,
            r.inner.id == service_user.user_id(),
            r.inner.name@ == service_user.full_name(),
            r.inner.nick@ == service_user.nick_name(),
            r.inner.avatar is Some == service_user.picture() is Some,
            r.inner.avatar matches Some(a) ==> Some(a@) == service_user.picture(),
    {
        let avatar = match service_user.avatar() {
            Some(a) => Some(string_of(&to_chars(a))),
            None => None,
        };
        BotUser {
            inner: BotUserInner {
                name: string_of(&to_chars(service_user.name())),
                nick: string_of(&to_chars(service_user.nick())),
                avatar,
                id: service_user.id(),
                restricted,
            },
            user,
        }
    }

    /// The user's identifier on their service.
    pub fn id(&self) -> (r: UserId)
        ensures
            r == self.inner.id,
    {
        self.inner.id
    }

    /// The user's number in the store.
    pub fn uid(&self) -> (r: Uid)
        ensures
            r == self.user.uid,
    {
        self.user.uid
    }

    /// Reads a field by its name.
    pub fn index(&self, key: &str) -> (r: GuestValue)
        ensures
            r@ == user_field(*self, key@),
    {
        if str_eq(key, "id") {
            GuestValue::Text(self.inner.id.to_short_str())
        } else if str_eq(key, "avatar") {
            match &self.inner.avatar {
                Some(a) => text_value(a.as_str()),
                None => GuestValue::Nil,
            }
        } else if str_eq(key, "uid") {
            GuestValue::Number(self.user.uid)
        } else if str_eq(key, "name") {
            text_value(self.inner.name.as_str())
        } else if str_eq(key, "nick") {
            text_value(self.inner.nick.as_str())
        } else if str_eq(key, "role") {
            text_value(self.user.role.as_str())
        } else if str_eq(key, "restricted") {
            GuestValue::Boolean(self.inner.restricted)
        } else {
            GuestValue::Nil
        }
    }

    /// The user as text.
    pub fn describe(&self) -> (r: String)
        ensures
            r@ == user_text(self.inner.name@, self.inner.id, self.user.uid),
    {
        let mut out = to_chars("User { name = \"");
        extend_chars(&mut out, &to_chars(self.inner.name.as_str()));
        extend_chars(&mut out, &to_chars("\", id = \""));
        extend_chars(&mut out, &to_chars(self.inner.id.to_str().as_str()));
        extend_chars(&mut out, &to_chars("\", uid = "));
        extend_chars(&mut out, &format_i64(self.user.uid));
        extend_chars(&mut out, &to_chars(" }"));
        string_of(&out)
    }
}

/// A server as the scripts see it.
#[derive(Copy, Clone, Debug)]
pub struct BotServer {
    pub id: ServerId,
}

/// A value of one field, shown as text: the kind, and the identifier
/// under the service's long name.
pub open spec fn id_only_text(kind: Seq<char>, name: Seq<char>, number: u64) -> Seq<char> {
    kind + " { id = \""@ + id_text(name, number) + "\" }"@
}

fn describe_by_id(kind: &str, id: &str) -> (r: String)
    ensures
        r@ == kind@ + " { id = \""@ + id@ + "\" }"@,
{
    let mut out = to_chars(kind);
    extend_chars(&mut out, &to_chars(" { id = \""));
    extend_chars(&mut out, &to_chars(id));
    extend_chars(&mut out, &to_chars("\" }"));
    string_of(&out)
}

impl BotServer {
    /// The server of this identifier.
    pub fn from_server(id: ServerId) -> (r: BotServer)
        ensures
            r.id == id,
    {
        BotServer { id }
    }

    /// The server's identifier.
    pub fn id(&self) -> (r: ServerId)
        ensures
            r == self.id,
    {
        self.id
    }

    /// Reads a field by its name.
    pub fn index(&self, key: &str) -> (r: GuestValue)
        ensures
            r@ == if key@ == "id"@ {
                GuestValueView::Text(id_text(service_id_short(self.id.kind()), self.id.number()))
            } else {
                GuestValueView::Nil
            },
    {
        if str_eq(key, "id") {
            GuestValue::Text(self.id.to_short_str())
        } else {
            GuestValue::Nil
        }
    }

    /// The server as text.
    pub fn describe(&self) -> (r: String)
        ensures
            r@ == id_only_text("Server"@, service_id(self.id.kind()), self.id.number()),
    {
        describe_by_id("Server", self.id.to_str().as_str())
    }
}

/// A channel as the scripts see it.
#[derive(Copy, Clone, Debug)]
pub struct BotChannel {
    pub id: ChannelId,
    pub server: BotServer,
    pub service: ServiceKind,
}

impl BotChannel {
    /// The channel of this identifier on this server.
    pub fn from_channel(id: ChannelId, server: BotServer, service: ServiceKind) -> (r: BotChannel)
        ensures
            r.id == id,
            r.server == server,
            r.service == service,
    {
        BotChannel { id, server, service }
    }

    /// The channel's identifier.
    pub fn id(&self) -> (r: ChannelId)
        ensures
            r == self.id,
    {
        self.id
    }

    /// The server that the channel is on.
    pub fn server(&self) -> (r: &BotServer)
        ensures
            *r == self.server,
    {
        &self.server
    }

    /// Reads a field by its name.
    pub fn index(&self, key: &str) -> (r: GuestValue)
        ensures
            r@ == if key@ == "id"@ {
                GuestValueView::Text(id_text(service_id_short(self.id.kind()), self.id.number()))
            } else if key@ == "server"@ {
                GuestValueView::Object(ObjectKind::Server)
            } else {
                GuestValueView::Nil
            },
    {
        if str_eq(key, "id") {
            GuestValue::Text(self.id.to_short_str())
        } else if str_eq(key, "server") {
            GuestValue::Object(ObjectKind::Server)
        } else {
            GuestValue::Nil
        }
    }

    /// The channel as text.
    pub fn describe(&self) -> (r: String)
        ensures
            r@ == id_only_text("Channel"@, service_id(self.id.kind()), self.id.number()),
    {
        describe_by_id("Channel", self.id.to_str().as_str())
    }
}

/// A file that came with a message, as the scripts see it.
#[derive(Clone, Debug)]
pub struct BotMessageAttachment(pub Attachment);

/// The field of a file that a name stands for.
pub open spec fn attachment_field(a: Attachment, key: Seq<char>) -> GuestValueView {
    if key == "filename"@ {
        GuestValueView::Text(a.filename@)
    } else if key == "url"@ {
        GuestValueView::Text(a.url@)
    } else if key == "size"@ {
        match a.size {
            Some(n) => GuestValueView::Count(n),
            None => GuestValueView::Nil,
        }
    } else if key == "dimensions"@ {
        match a.dimensions {
            Some((w, h)) => GuestValueView::Size(w, h),
            None => GuestValueView::Nil,
        }
    } else {
        GuestValueView::Nil
    }
}

impl BotMessageAttachment {
    /// Reads a field by its name.
    pub fn index(&self, key: &str) -> (r: GuestValue)
        ensures
            r@ == attachment_field(self.0, key@),
    {
        if str_eq(key, "filename") {
            text_value(self.0.filename.as_str())
        } else if str_eq(key, "url") {
            text_value(self.0.url.as_str())
        } else if str_eq(key, "size") {
            match self.0.size {
                Some(n) => GuestValue::Count(n),
                None => GuestValue::Nil,
            }
        } else if str_eq(key, "dimensions") {
            match self.0.dimensions {
                Some((w, h)) => GuestValue::Size(w, h),
                None => GuestValue::Nil,
            }
        } else {
            GuestValue::Nil
        }
    }

    /// The file as text.
    pub fn describe(&self) -> (r: String)
        ensures
            r@ == "Attachment { filename = \""@ + self.0.filename@ + "\", url = \""@ + self.0.url@
                + "\"}"@,
    {
        let mut out = to_chars("Attachment { filename = \"");
        extend_chars(&mut out, &to_chars(self.0.filename.as_str()));
        extend_chars(&mut out, &to_chars("\", url = \""));
        extend_chars(&mut out, &to_chars(self.0.url.as_str()));
        extend_chars(&mut out, &to_chars("\"}"));
        string_of(&out)
    }
}

/// A message as the scripts see it.
#[derive(Clone, Debug)]
pub struct BotMessage {
    pub id: MessageId,
    pub author: BotUser,
    pub channel: BotChannel,
    pub content: String,
    pub attachments: Vec<Attachment>,
    pub service: ServiceKind,
}

/// The field of a message that a name stands for.
pub open spec fn message_field(msg: BotMessage, key: Seq<char>) -> GuestValueView {
    if key == "id"@ {
        GuestValueView::Text(id_text(service_id_short(msg.id.kind()), msg.id.number()))
    } else if key == "attachments"@ {
        GuestValueView::Object(ObjectKind::Attachments)
    } else if key == "author"@ {
        GuestValueView::Object(ObjectKind::Author)
    } else if key == "content"@ {
        GuestValueView::Text(msg.content@)
    } else if key == "channel"@ {
        GuestValueView::Object(ObjectKind::Channel)
    } else if key == "service"@ {
        GuestValueView::Text(service_id(msg.service))
    } else {
        GuestValueView::Nil
    }
}

impl BotMessage {
    /// The message as the scripts see it.
    pub fn from_msg(
        id: MessageId,
        author: BotUser,
        channel: BotChannel,
        content: String,
        attachments: Vec<Attachment>,
        service: ServiceKind,
    ) -> (r: BotMessage)
        ensures
            r.id == id,
            r.author == author,
            r.channel == channel,
            r.content == content,
            r.attachments == attachments,
            r.service == service,
    {
        BotMessage { id, author, channel, content, attachments, service }
    }

    /// Who wrote the message.
    pub fn author(&self) -> (r: &BotUser)
        ensures
            *r == self.author,
    {
        &self.author
    }

    /// Where the message was written.
    pub fn channel(&self) -> (r: &BotChannel)
        ensures
            *r == self.channel,
    {
        &self.channel
    }

    /// The files that came with the message.
    pub fn attachments(&self) -> (r: &Vec<Attachment>)
        ensures
            *r == self.attachments,
    {
        &self.attachments
    }

    /// The service that the message is on.
    pub fn service_kind(&self) -> (r: ServiceKind)
        ensures
            r == self.service,
    {
        self.service
    }

    /// Reads a field by its name.
    pub fn index(&self, key: &str) -> (r: GuestValue)
        ensures
            r@ == message_field(*self, key@),
    {
        if str_eq(key, "id") {
            GuestValue::Text(self.id.to_short_str())
        } else if str_eq(key, "attachments") {
            GuestValue::Object(ObjectKind::Attachments)
        } else if str_eq(key, "author") {
            GuestValue::Object(ObjectKind::Author)
        } else if str_eq(key, "content") {
            text_value(self.content.as_str())
        } else if str_eq(key, "channel") {
            GuestValue::Object(ObjectKind::Channel)
        } else if str_eq(key, "service") {
            text_value(self.service.id())
        } else {
            GuestValue::Nil
        }
    }

    /// The message as text.
    pub fn describe(&self) -> (r: String)
        ensures
            r@ == "Message { id = \""@ + id_text(service_id(self.id.kind()), self.id.number())
                + "\", content = \""@ + self.content@ + "\" }"@,
    {
        let mut out = to_chars("Message { id = \"");
        extend_chars(&mut out, &to_chars(self.id.to_str().as_str()));
        extend_chars(&mut out, &to_chars("\", content = \""));
        extend_chars(&mut out, &to_chars(self.content.as_str()));
        extend_chars(&mut out, &to_chars("\" }"));
        string_of(&out)
    }

    /// What goes with a reply to the message: what the script asked for,
    /// and a mention of the author and of nobody else.
    pub fn reply_settings(&self, settings: MessageSettings) -> (r: MessageSettings)
        ensures
            r.reply_user == Some(self.author.inner.id),
            r.embed == settings.embed,
            r.reply == settings.reply,
            r.attachments == settings.attachments,
    {
        MessageSettings {
            embed: settings.embed,
            reply: settings.reply,
            reply_user: Some(self.author.inner.id),
            attachments: settings.attachments,
        }
    }
}

/// A tag as the scripts see it.
#[derive(Clone, Debug)]
pub struct LuaTag {
    pub inner: Tag,
}

/// The field of a tag that a name stands for.
pub open spec fn tag_field(tag: Tag, key: Seq<char>) -> GuestValueView {
    if key == "uid"@ {
        GuestValueView::Number(tag.uid)
    } else if key == "transfer_uid"@ {
        match tag.transfer_uid {
            Some(uid) => GuestValueView::Number(uid),
            None => GuestValueView::Nil,
        }
    } else if key == "value"@ {
        GuestValueView::Text(tag.value@)
    } else {
        GuestValueView::Nil
    }
}

impl LuaTag {
    /// The tag as the scripts see it.
    pub fn from_tag(inner: Tag) -> (r: LuaTag)
        ensures
            r.inner == inner,
    {
        LuaTag { inner }
    }

    /// The number of the user to whom the tag belongs.
    pub fn owner_uid(&self) -> (r: Uid)
        ensures
            r == self.inner.uid,
    {
        self.inner.uid
    }

    /// Reads a field by its name.
    pub fn index(&self, key: &str) -> (r: GuestValue)
        ensures
            r@ == tag_field(self.inner, key@),
    {
        if str_eq(key, "uid") {
            GuestValue::Number(self.inner.uid)
        } else if str_eq(key, "transfer_uid") {
            match self.inner.transfer_uid {
                Some(uid) => GuestValue::Number(uid),
                None => GuestValue::Nil,
            }
        } else if str_eq(key, "value") {
            text_value(self.inner.value.as_str())
        } else {
            GuestValue::Nil
        }
    }
}

/// The features that the scripts can ask a channel for, each under its
/// name.
pub fn bot_flags() -> (r: Vec<(&'static str, u32)>)
    ensures
        r@.len() == 4,
        r@[0].0@ == "Edit"@ && r@[0].1 == FEATURE_EDIT,
        r@[1].0@ == "Embed"@ && r@[1].1 == FEATURE_EMBED,
        r@[2].0@ == "React"@ && r@[2].1 == FEATURE_REACT,
        r@[3].0@ == "Markdown"@ && r@[3].1 == FEATURE_MARKDOWN,
{
    let mut flags: Vec<(&'static str, u32)> = Vec::new();
    flags.push(("Edit", FEATURE_EDIT));
    flags.push(("Embed", FEATURE_EMBED));
    flags.push(("React", FEATURE_REACT));
    flags.push(("Markdown", FEATURE_MARKDOWN));
    flags
}

/// Whether `c` is a letter of the alphabet or a digit.
pub open spec fn is_alphanumeric(c: char) -> bool {
    ('a' <= c <= 'z') || ('A' <= c <= 'Z') || ('0' <= c <= '9')
}

/// Whether a key under which a script keeps data holds letters and
/// digits only, so that it names a file and nothing else.
pub open spec fn plain_key(key: Seq<char>) -> bool {
    forall|i: int| 0 <= i < key.len() ==> is_alphanumeric(#[trigger] key[i])
}

/// The name of the file that keeps the data of a key: the key with `.txt`
/// behind it. A key that holds anything but letters and digits is
/// refused.
pub fn data_file_name(key: &str) -> (r: Option<String>)
    ensures
        r is Some == plain_key(key@),
        r matches Some(name) ==> name@ == key@ + ".txt"@,
{
    let mut out = to_chars(key);
    let mut i: usize = 0;
    while i < out.len()
        invariant
            i <= out.len(),
            out@ == key@,
            forall|k: int| 0 <= k < i ==> is_alphanumeric(#[trigger] key@[k]),
        decreases out.len() - i,
    {
        let c = out[i];
        if !(('a' <= c && c <= 'z') || ('A' <= c && c <= 'Z') || ('0' <= c && c <= '9')) {
            return None;
        }
        i += 1;
    }
    extend_chars(&mut out, &to_chars(".txt"));
    Some(string_of(&out))
}

/// What a script is told when it names a key that is refused.
pub fn data_key_error() -> (r: &'static str)
    ensures
        r@ == "key must be alphanumeric"@,
{
    "key must be alphanumeric"
}

} // verus!
