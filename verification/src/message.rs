//! The request and response records of the message endpoints.

use vstd::prelude::*;
use vstd::string::*;

verus! {

/// What the server answers to a message that was sent.
#[derive(Clone, Debug, PartialEq, Eq)]
pub enum SendMessageResponse {
    Success { id: i64, msg: String },
    Error { code: String, msg: String, stream: Option<String> },
}

/// A message to send, to a stream or to users.
#[derive(Clone, Debug, PartialEq, Eq)]
pub enum SendMessageRequest {
    Stream { to: String, topic: String, content: String },
    Private { to: String, content: String },
}

/// Where in the history a request for messages is anchored.
#[derive(Clone, Copy, Debug, PartialEq, Eq, Structural)]
pub enum Anchor {
    Newest,
    Oldest,
    FirstUnread,
    MessageID(i64),
}

/// The form in which an [`Anchor`] goes over the wire.
#[derive(Clone, Copy, Debug, PartialEq, Eq)]
pub enum AnchorValue {
    /// One of the named anchors.
    Name(&'static str),
    /// The identifier of a message.
    Id(i64),
}

impl Anchor {
    /// The wire form of the anchor, over mathematical values: the name of
    /// a named anchor, or the identifier.
    pub open spec fn spec_value(self) -> Result<Seq<char>, int> {
        match self {
            Anchor::Newest => Ok("newest"@),
            Anchor::Oldest => Ok("oldest"@),
            Anchor::FirstUnread => Ok("first_unread"@),
            Anchor::MessageID(id) => Err(id as int),
        }
    }

    /// The form in which the anchor goes over the wire: `newest`,
    /// `oldest` or `first_unread`, or the identifier of the message as a
    /// number.
    pub fn value(&self) -> (v: AnchorValue)
        ensures
            match v {
                AnchorValue::Name(name) => self.spec_value() == Ok::<_, int>(name@),
                AnchorValue::Id(id) => self.spec_value() == Err::<Seq<char>, _>(id as int),
            },
    {
        match self {
            Anchor::Newest => AnchorValue::Name("newest"),
            Anchor::Oldest => AnchorValue::Name("oldest"),
            Anchor::FirstUnread => AnchorValue::Name("first_unread"),
            Anchor::MessageID(id) => AnchorValue::Id(*id),
        }
    }
}

/// One condition of a narrow.
#[derive(Clone, Debug, PartialEq, Eq)]
pub struct Narrow {
    pub operand: String,
    pub operator: String,
}

/// A request for a window of the message history.
#[derive(Clone, Debug, PartialEq, Eq)]
pub struct GetMessagesRequest {
    pub anchor: Option<Anchor>,
    pub num_before: i64,
    pub num_after: i64,
    pub narrow: Option<Vec<Narrow>>,
}

impl GetMessagesRequest {
    /// A request for `num_before` messages before and `num_after`
    /// messages after the newest message, not narrowed.
    pub fn new(num_before: i64, num_after: i64) -> (req: Self)
        ensures
            req.anchor == Some(Anchor::Newest),
            req.num_before == num_before,
            req.num_after == num_after,
            req.narrow is None,
    {
        Self { anchor: Some(Anchor::Newest), num_before, num_after, narrow: None }
    }

    /// Anchors the request at `anchor`.
    pub fn anchor(&mut self, anchor: Anchor) -> (req: &mut Self)
        ensures
            req.anchor == Some(anchor),
            req.num_before == old(self).num_before,
            req.num_after == old(self).num_after,
            req.narrow == old(self).narrow,
            *final(self) == *final(req),
    {
        self.anchor = Some(anchor);
        self
    }

    /// Narrows the request to the messages that meet `narrow`.
    pub fn narrow(&mut self, narrow: Vec<Narrow>) -> (req: &mut Self)
        ensures
            req.narrow == Some(narrow),
            req.anchor == old(self).anchor,
            req.num_before == old(self).num_before,
            req.num_after == old(self).num_after,
            *final(self) == *final(req),
    {
        self.narrow = Some(narrow);
        self
    }
}

/// A window of the message history.
#[derive(Clone, Debug, PartialEq, Eq)]
pub struct GetMessagesResponse {
    pub msg: String,
    pub result: String,
    pub anchor: i64,
    pub found_newest: bool,
    pub found_oldest: Option<bool>,
    pub found_anchor: bool,
    pub history_limited: Option<bool>,
    pub messages: Vec<ReceivedMessage>,
}

/// A message as the server hands it out.
#[derive(Clone, Debug, PartialEq, Eq)]
pub struct ReceivedMessage {
    pub avatar_url: String,
    pub client: String,
    pub content: String,
    pub content_type: String,
    pub display_recipient: DisplayRecipient,
    pub id: i64,
    pub is_me_message: bool,
    pub reactions: Vec<Reaction>,
    pub recipient_id: i64,
    pub sender_email: String,
    pub sender_full_name: String,
    pub sender_id: i64,
    pub sender_realm_str: String,
    pub stream_id: Option<i64>,
    pub subject: String,
    pub topic_links: Vec<String>,
    pub submessages: Vec<String>,
    pub timestamp: i64,
    /// Whether the message went to a stream or to users.
    pub kind: String,
    pub flags: Vec<String>,
    pub last_edit_timestamp: Option<i64>,
    pub match_content: Option<String>,
    pub match_subject: Option<String>,
}

/// To whom a message went: the name of a stream, or the users of a
/// private conversation.
#[derive(Clone, Debug, PartialEq, Eq)]
pub enum DisplayRecipient {
    Stream(String),
    PrivateMessage(Vec<DisplayRecipientPrivateMessage>),
}

/// One user of a private conversation.
#[derive(Clone, Debug, PartialEq, Eq)]
pub struct DisplayRecipientPrivateMessage {
    pub id: i64,
    pub email: String,
    pub full_name: String,
    pub is_mirror_dummy: bool,
}

/// A reaction to a message.
#[derive(Clone, Debug, PartialEq, Eq)]
pub struct Reaction {
    pub emoji_code: String,
    pub emoji_name: String,
    pub reaction_type: String,
    pub user_id: i64,
}

/// What the server answers to the deletion of a message.
#[derive(Clone, Debug, PartialEq, Eq)]
pub enum DeleteMessageResponse {
    Success,
    Error(DeleteMessageError),
}

/// Why a message was not deleted.
#[derive(Clone, Debug, PartialEq, Eq)]
pub struct DeleteMessageError {
    pub code: String,
    pub msg: String,
}

/// Which messages move with the one whose topic or stream is changed.
#[derive(Clone, Copy, Debug, PartialEq, Eq, Structural)]
pub enum PropagateMode {
    ChangeOne,
    ChangeAll,
    ChangeLater,
}

/// The kinds of emoji.
#[derive(Clone, Copy, Debug, PartialEq, Eq, Structural)]
pub enum ReactionType {
    UnicodeEmoji,
    RealmEmoji,
    ZulipExtraEmoji,
}

/// A change to a message.
#[derive(Clone, Debug, PartialEq, Eq)]
pub struct EditMessageRequest {
    /// The message to change; part of the address, not of the body.
    pub message_id: i64,
    pub topic: Option<String>,
    pub propagate_mode: PropagateMode,
    pub send_notification_to_old_thread: bool,
    pub send_notification_to_new_thread: bool,
    pub content: Option<String>,
    pub stream_id: Option<i64>,
}

impl EditMessageRequest {
    /// A request that changes nothing of the message `message_id` yet: it
    /// would touch that message alone and notify both threads.
    pub fn new(message_id: i64) -> (req: Self)
        ensures
            req.message_id == message_id,
            req.topic is None,
            req.propagate_mode == PropagateMode::ChangeOne,
            req.send_notification_to_old_thread,
            req.send_notification_to_new_thread,
            req.content is None,
            req.stream_id is None,
    {
        Self {
            message_id,
            topic: None,
            propagate_mode: PropagateMode::ChangeOne,
            send_notification_to_new_thread: true,
            send_notification_to_old_thread: true,
            content: None,
            stream_id: None,
        }
    }

    /// Moves the message to the topic `topic`.
    pub fn topic(&mut self, topic: &str) -> (req: &mut Self)
        ensures
            req.topic matches Some(t) && t@ == topic@,
            req.message_id == old(self).message_id,
            req.propagate_mode == old(self).propagate_mode,
            req.send_notification_to_old_thread == old(self).send_notification_to_old_thread,
            req.send_notification_to_new_thread == old(self).send_notification_to_new_thread,
            req.content == old(self).content,
            req.stream_id == old(self).stream_id,
            *final(self) == *final(req),
    {
        self.topic = Some(topic.to_owned());
        self
    }

    /// Says which other messages move with this one.
    pub fn propagate_mode(&mut self, propagate_mode: PropagateMode) -> (req: &mut Self)
        ensures
            req.propagate_mode == propagate_mode,
            req.message_id == old(self).message_id,
            req.topic == old(self).topic,
            req.send_notification_to_old_thread == old(self).send_notification_to_old_thread,
            req.send_notification_to_new_thread == old(self).send_notification_to_new_thread,
            req.content == old(self).content,
            req.stream_id == old(self).stream_id,
            *final(self) == *final(req),
    {
        self.propagate_mode = propagate_mode;
        self
    }

    /// Says whether the thread that the message leaves is notified.
    pub fn send_notification_to_old_thread(&mut self, is_send: bool) -> (req: &mut Self)
        ensures
            req.send_notification_to_old_thread == is_send,
            req.message_id == old(self).message_id,
            req.topic == old(self).topic,
            req.propagate_mode == old(self).propagate_mode,
            req.send_notification_to_new_thread == old(self).send_notification_to_new_thread,
            req.content == old(self).content,
            req.stream_id == old(self).stream_id,
            *final(self) == *final(req),
    {
        self.send_notification_to_old_thread = is_send;
        self
    }

    /// Says whether the thread that the message joins is notified.
    pub fn send_notification_to_new_thread(&mut self, is_send: bool) -> (req: &mut Self)
        ensures
            req.send_notification_to_new_thread == is_send,
            req.message_id == old(self).message_id,
            req.topic == old(self).topic,
            req.propagate_mode == old(self).propagate_mode,
            req.send_notification_to_old_thread == old(self).send_notification_to_old_thread,
            req.content == old(self).content,
            req.stream_id == old(self).stream_id,
            *final(self) == *final(req),
    {
        self.send_notification_to_new_thread = is_send;
        self
    }

    /// Replaces the content of the message by `content`.
    pub fn content(&mut self, content: &str) -> (req: &mut Self)
        ensures
            req.content matches Some(c) && c@ == content@,
            req.message_id == old(self).message_id,
            req.topic == old(self).topic,
            req.propagate_mode == old(self).propagate_mode,
            req.send_notification_to_old_thread == old(self).send_notification_to_old_thread,
            req.send_notification_to_new_thread == old(self).send_notification_to_new_thread,
            req.stream_id == old(self).stream_id,
            *final(self) == *final(req),
    {
        self.content = Some(content.to_owned());
        self
    }

    /// Moves the message to the stream `stream_id`.
    pub fn stream_id(&mut self, stream_id: i64) -> (req: &mut Self)
        ensures
            req.stream_id == Some(stream_id),
            req.message_id == old(self).message_id,
            req.topic == old(self).topic,
            req.propagate_mode == old(self).propagate_mode,
            req.send_notification_to_old_thread == old(self).send_notification_to_old_thread,
            req.send_notification_to_new_thread == old(self).send_notification_to_new_thread,
            req.content == old(self).content,
            *final(self) == *final(req),
    {
        self.stream_id = Some(stream_id);
        self
    }
}

/// A reaction to add to a message.
#[derive(Clone, Debug, PartialEq, Eq)]
pub struct AddEmojiReactionRequest {
    /// The message to react to; part of the address, not of the body.
    pub message_id: i64,
    pub emoji_name: String,
    pub emoji_code: Option<String>,
    pub reaction_type: Option<ReactionType>,
}

impl AddEmojiReactionRequest {
    /// The reaction `emoji_name` to the message `message_id`, with no
    /// code and no kind given.
    pub fn new(message_id: i64, emoji_name: &str) -> (req: Self)
        ensures
            req.message_id == message_id,
            req.emoji_name@ == emoji_name@,
            req.emoji_code is None,
            req.reaction_type is None,
    {
        Self {
            message_id,
            emoji_name: emoji_name.to_owned(),
            emoji_code: None,
            reaction_type: None,
        }
    }

    /// Gives the code of the emoji.
    pub fn emoji_code(&mut self, emoji_code: &str) -> (req: &mut Self)
        ensures
            req.emoji_code matches Some(c) && c@ == emoji_code@,
            req.message_id == old(self).message_id,
            req.emoji_name == old(self).emoji_name,
            req.reaction_type == old(self).reaction_type,
            *final(self) == *final(req),
    {
        self.emoji_code = Some(emoji_code.to_owned());
        self
    }

    /// Gives the kind of the emoji.
    pub fn reaction_type(&mut self, reaction_type: ReactionType) -> (req: &mut Self)
        ensures
            req.reaction_type == Some(reaction_type),
            req.message_id == old(self).message_id,
            req.emoji_name == old(self).emoji_name,
            req.emoji_code == old(self).emoji_code,
            *final(self) == *final(req),
    {
        self.reaction_type = Some(reaction_type);
        self
    }
}

/// A reaction to take off a message.
#[derive(Clone, Debug, PartialEq, Eq)]
pub struct RemoveEmojiReactionRequest {
    pub message_id: i64,
    pub emoji_name: Option<String>,
    pub emoji_code: Option<String>,
    pub reaction_type: Option<ReactionType>,
}

impl RemoveEmojiReactionRequest {
    /// A request on the message `message_id` that names no emoji yet.
    pub fn new(message_id: i64) -> (req: Self)
        ensures
            req.message_id == message_id,
            req.emoji_name is None,
            req.emoji_code is None,
            req.reaction_type is None,
    {
        Self { message_id, emoji_name: None, emoji_code: None, reaction_type: None }
    }

    /// Gives the name of the emoji.
    pub fn emoji_name(&mut self, emoji_name: &str) -> (req: &mut Self)
        ensures
            req.emoji_name matches Some(n) && n@ == emoji_name@,
            req.message_id == old(self).message_id,
            req.emoji_code == old(self).emoji_code,
            req.reaction_type == old(self).reaction_type,
            *final(self) == *final(req),
    {
        self.emoji_name = Some(emoji_name.to_owned());
        self
    }

    /// Gives the code of the emoji.
    pub fn emoji_code(&mut self, emoji_code: &str) -> (req: &mut Self)
        ensures
            req.emoji_code matches Some(c) && c@ == emoji_code@,
            req.message_id == old(self).message_id,
            req.emoji_name == old(self).emoji_name,
            req.reaction_type == old(self).reaction_type,
            *final(self) == *final(req),
    {
        self.emoji_code = Some(emoji_code.to_owned());
        self
    }

    /// Gives the kind of the emoji.
    pub fn reaction_type(&mut self, reaction_type: ReactionType) -> (req: &mut Self)
        ensures
            req.reaction_type == Some(reaction_type),
            req.message_id == old(self).message_id,
            req.emoji_name == old(self).emoji_name,
            req.emoji_code == old(self).emoji_code,
            *final(self) == *final(req),
    {
        self.reaction_type = Some(reaction_type);
        self
    }
}

} // verus!
