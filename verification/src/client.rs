//! The client: a runtime configuration, and what it says about each call
//! to the server. Sending is left to the caller.

use crate::message::{AddEmojiReactionRequest, EditMessageRequest, RemoveEmojiReactionRequest};
use crate::rc::{
    config_of, parse_from_str, ConfigError, ConfigErrorView, ConfigView, ZulipRuntimeConfig,
};
use crate::text::{decimal, push_signed_decimal};
use vstd::prelude::*;
use vstd::string::*;

verus! {

/// The HTTP methods that the message endpoints take.
#[derive(Clone, Copy, Debug, PartialEq, Eq, Structural)]
pub enum Method {
    Get,
    Post,
    Patch,
    Delete,
}

/// One call to the server: the method and the full address.
#[derive(Clone, Debug, PartialEq, Eq)]
pub struct Call {
    pub method: Method,
    pub url: String,
}

/// The path of the messages.
pub open spec fn messages_path() -> Seq<char> {
    "/api/v1/messages"@
}

/// The path of the messages that answer `query` and meet `narrow`, both
/// already encoded.
pub open spec fn messages_query_path(query: Seq<char>, narrow: Seq<char>) -> Seq<char> {
    "/api/v1/messages?"@ + query + "&narrow="@ + narrow
}

/// The path of the message `id`.
pub open spec fn message_path(id: int) -> Seq<char> {
    "/api/v1/messages/"@ + decimal(id)
}

/// The path of the reactions to the message `id`.
pub open spec fn reactions_path(id: int) -> Seq<char> {
    "/api/v1/messages/"@ + decimal(id) + "/reactions"@
}

/// A client of one server, for one account.
#[derive(Clone, Debug)]
pub struct Client {
    rc: ZulipRuntimeConfig,
}

impl View for Client {
    type V = ConfigView;

    closed spec fn view(&self) -> ConfigView {
        self.rc@
    }
}

impl Client {
    /// A client with the runtime configuration that `zulip_rc` holds, or
    /// why `zulip_rc` holds none.
    pub fn new(zulip_rc: &str) -> (r: Result<Self, ConfigError>)
        ensures
            match r {
                Ok(client) => config_of(zulip_rc@) == Ok::<_, ConfigErrorView>(client@),
                Err(e) => config_of(zulip_rc@) == Err::<ConfigView, _>(e@),
            },
    {
        match parse_from_str(zulip_rc) {
            Ok(rc) => Ok(Client { rc }),
            Err(e) => Err(e),
        }
    }

    /// A client with the runtime configuration that `zulip_rc` holds, or
    /// why `zulip_rc` holds none.
    pub fn parse(zulip_rc: &str) -> (r: Result<Self, ConfigError>)
        ensures
            match r {
                Ok(client) => config_of(zulip_rc@) == Ok::<_, ConfigErrorView>(client@),
                Err(e) => config_of(zulip_rc@) == Err::<ConfigView, _>(e@),
            },
    {
        Client::new(zulip_rc)
    }

    /// The runtime configuration of the client.
    pub fn rc(&self) -> (rc: &ZulipRuntimeConfig)
        ensures
            rc@ == self@,
    {
        &self.rc
    }

    /// The address of `endpoint` on the server: the site, then the
    /// endpoint, with nothing between them.
    pub fn url(&self, endpoint: &str) -> (url: String)
        ensures
            url@ == self@.api.site + endpoint@,
    {
        let mut url = self.rc.api.site.clone();
        url.append(endpoint);
        url
    }

    /// The call that sends a message.
    pub fn send_message_call(&self) -> (call: Call)
        ensures
            call.method == Method::Post,
            call.url@ == self@.api.site + messages_path(),
    {
        Call { method: Method::Post, url: self.url("/api/v1/messages") }
    }

    /// The call that gets the messages that answer `query` and meet
    /// `narrow`, both already encoded.
    pub fn get_messages_call(&self, query: &str, narrow: &str) -> (call: Call)
        ensures
            call.method == Method::Get,
            call.url@ == self@.api.site + messages_query_path(query@, narrow@),
    {
        let mut url = self.url("/api/v1/messages?");
        url.append(query);
        url.append("&narrow=");
        url.append(narrow);
        Call { method: Method::Get, url }
    }

    /// The address of the message `id`.
    fn message_url(&self, id: i64) -> (url: String)
        ensures
            url@ == self@.api.site + message_path(id as int),
    {
        let mut url = self.url("/api/v1/messages/");
        push_signed_decimal(&mut url, id);
        url
    }

    /// The address of the reactions to the message `id`.
    fn reactions_url(&self, id: i64) -> (url: String)
        ensures
            url@ == self@.api.site + reactions_path(id as int),
    {
        let mut url = self.message_url(id);
        url.append("/reactions");
        url
    }

    /// The call that deletes the message `id`.
    pub fn delete_message_call(&self, id: i64) -> (call: Call)
        ensures
            call.method == Method::Delete,
            call.url@ == self@.api.site + message_path(id as int),
    {
        Call { method: Method::Delete, url: self.message_url(id) }
    }

    /// The call that makes the change `req`.
    pub fn edit_message_call(&self, req: &EditMessageRequest) -> (call: Call)
        ensures
            call.method == Method::Patch,
            call.url@ == self@.api.site + message_path(req.message_id as int),
    {
        Call { method: Method::Patch, url: self.message_url(req.message_id) }
    }

    /// The call that adds the reaction `req`.
    pub fn add_emoji_reaction_call(&self, req: &AddEmojiReactionRequest) -> (call: Call)
        ensures
            call.method == Method::Post,
            call.url@ == self@.api.site + reactions_path(req.message_id as int),
    {
        Call { method: Method::Post, url: self.reactions_url(req.message_id) }
    }

    /// The call that takes off the reaction `req`.
    pub fn remove_emoji_reaction_call(&self, req: &RemoveEmojiReactionRequest) -> (call: Call)
        ensures
            call.method == Method::Delete,
            call.url@ == self@.api.site + reactions_path(req.message_id as int),
    {
        Call { method: Method::Delete, url: self.reactions_url(req.message_id) }
    }
}

} // verus!
