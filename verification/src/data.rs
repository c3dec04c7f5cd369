//! Typed chat records and their decoding from raw, untyped payloads.

use vstd::prelude::*;
use vstd::string::StringExecFns;
use crate::markup::MarkupNode;
use crate::markup::Team;
use crate::markup::extract_nodes;
use crate::markup::markup_dom_of;
use crate::markup::nodes_team;
use crate::markup::nodes_text;
use crate::markup::parse_markup;
use crate::markup::team_view;
use crate::strutil::dec_str_of;
use crate::strutil::str_eq;
use crate::strutil::trim_spec;
use crate::strutil::u64_to_string;

verus! {

/// The optional string as an optional character sequence.
pub open spec fn opt_string_view(o: Option<String>) -> Option<Seq<char>> {
    match o {
        Some(s) => Some(s@),
        None => None,
    }
}

/// CSS-class-like annotations attached to a chat record.
#[derive(Clone, Debug, PartialEq)]
pub struct ChatMeta {
    /// The annotation class added by the server, if any.
    pub add_class: Option<String>,
}

/// The outcome of a login attempt.
#[derive(Debug, PartialEq)]
pub struct Login {
    /// The error message, meaningful when the attempt failed.
    pub error: Option<String>,
    /// The accepted user name, meaningful when the attempt succeeded.
    pub name: Option<String>,
    /// Whether the attempt succeeded.
    pub success: bool,
}

/// A message body with markup extracted: its plain text and team tag.
#[derive(Debug, PartialEq)]
pub struct MessageContainer {
    /// The plain text, trimmed of leading and trailing whitespace.
    pub text: String,
    /// The team tag carried by the body's team span, if any.
    pub team: Team,
}

/// A decoded chat message.
#[derive(Debug, PartialEq)]
pub struct ChatMessage {
    /// Epoch milliseconds at which the message was sent.
    pub time: u64,
    /// The sender's name.
    pub username: String,
    /// The message body with markup extracted.
    pub msg: MessageContainer,
    /// The record's annotations.
    pub meta: ChatMeta,
}

/// A raw chat payload: the fields the decoder requires, each present only
/// when the untyped record carried it with the right type.
#[derive(Clone, Debug)]
pub struct RawChatPayload {
    /// The `time` field, when present as an unsigned integer.
    pub time: Option<u64>,
    /// The `username` field, when present as a string.
    pub username: Option<String>,
    /// The `msg` field, when present as a string; holds the markup body.
    pub msg: Option<String>,
    /// The `meta` field, when present as an object.
    pub meta: Option<ChatMeta>,
}

/// A raw login payload.
#[derive(Clone, Debug)]
pub struct RawLoginPayload {
    /// The `success` field, when present as a boolean.
    pub success: Option<bool>,
    /// The `name` field, when present as a string.
    pub name: Option<String>,
    /// The `error` field, when present as a string.
    pub error: Option<String>,
}

/// Why a raw payload failed to decode.
#[derive(Debug, PartialEq)]
pub enum DecodeError {
    /// The `time` field is missing or not an unsigned integer.
    MissingTime,
    /// The `username` field is missing or not a string.
    MissingUsername,
    /// The `msg` field is missing or not a string.
    MissingMsg,
    /// The `meta` field is missing or not an object.
    MissingMeta,
    /// The `success` field is missing or not a boolean.
    MissingSuccess,
    /// The message body failed to parse as markup; carries the cause.
    Markup(String),
}

/// The extracted text of a markup body that parses.
pub open spec fn spec_msg_text(s: Seq<char>) -> Seq<char>
    recommends
        markup_dom_of(s) is Some,
{
    trim_spec(nodes_text(markup_dom_of(s)->0))
}

/// The extracted team of a markup body that parses.
pub open spec fn spec_msg_team(s: Seq<char>) -> Option<Seq<char>>
    recommends
        markup_dom_of(s) is Some,
{
    nodes_team(markup_dom_of(s)->0)
}

impl MessageContainer {
    /// Parses a markup body and extracts its plain text and team tag.
    pub fn from_markup(input: &str) -> (r: Result<MessageContainer, String>)
        ensures
            r is Ok <==> markup_dom_of(input@) is Some,
            r matches Ok(c) ==> c.text@ == spec_msg_text(input@) && team_view(c.team)
                == spec_msg_team(input@),
    {
        let nodes: Vec<MarkupNode> = match parse_markup(input) {
            Ok(nodes) => nodes,
            Err(e) => {
                return Err(e);
            },
        };
        let (text, team) = extract_nodes(&nodes);
        Ok(MessageContainer { text, team })
    }
}

/// Whether a raw chat payload decodes: every required field is present with
/// the right type and the markup body parses.
pub open spec fn chat_decodes(raw: RawChatPayload) -> bool {
    &&& raw.time is Some
    &&& raw.username is Some
    &&& raw.msg is Some
    &&& raw.meta is Some
    &&& markup_dom_of(raw.msg->0@) is Some
}

/// Whether a raw chat payload carries the operator-whisper annotation.
pub open spec fn raw_suppressed(raw: RawChatPayload) -> bool {
    raw.meta matches Some(meta) && meta.add_class matches Some(c) && c@ == "server-whisper"@
}

/// Whether a decoded record is an operator whisper that must not be logged.
pub open spec fn spec_suppressed(m: ChatMessage) -> bool {
    m.meta.add_class matches Some(c) && c@ == "server-whisper"@
}

impl ChatMessage {
    /// Decodes one raw chat payload into a typed record, or says which field
    /// is missing or why the markup body failed to parse.
    pub fn decode(raw: &RawChatPayload) -> (r: Result<ChatMessage, DecodeError>)
        ensures
            r is Ok <==> chat_decodes(*raw),
            r matches Ok(m) ==> {
                &&& m.time == raw.time->0
                &&& m.username@ == raw.username->0@
                &&& m.msg.text@ == spec_msg_text(raw.msg->0@)
                &&& team_view(m.msg.team) == spec_msg_team(raw.msg->0@)
                &&& opt_string_view(m.meta.add_class) == opt_string_view(raw.meta->0.add_class)
                &&& spec_suppressed(m) == raw_suppressed(*raw)
            },
            raw.time is None ==> (r matches Err(e) && e is MissingTime),
            raw.time is Some && raw.username is None ==> (r matches Err(e) && e is MissingUsername),
            raw.time is Some && raw.username is Some && raw.msg is None ==> (r matches Err(e)
                && e is MissingMsg),
            raw.time is Some && raw.username is Some && raw.msg is Some && raw.meta is None
                ==> (r matches Err(e) && e is MissingMeta),
            raw.time is Some && raw.username is Some && raw.msg is Some && raw.meta is Some
                && markup_dom_of(raw.msg->0@) is None ==> (r matches Err(e) && e is Markup),
    {
        let time = match raw.time {
            Some(t) => t,
            None => {
                return Err(DecodeError::MissingTime);
            },
        };
        let username = match &raw.username {
            Some(u) => u.clone(),
            None => {
                return Err(DecodeError::MissingUsername);
            },
        };
        let msg_src = match &raw.msg {
            Some(m) => m,
            None => {
                return Err(DecodeError::MissingMsg);
            },
        };
        let meta = match &raw.meta {
            Some(m) => ChatMeta {
                add_class: match &m.add_class {
                    Some(c) => Some(c.clone()),
                    None => None,
                },
            },
            None => {
                return Err(DecodeError::MissingMeta);
            },
        };
        let msg = match MessageContainer::from_markup(msg_src.as_str()) {
            Ok(c) => c,
            Err(cause) => {
                return Err(DecodeError::Markup(cause));
            },
        };
        Ok(ChatMessage { time, username, msg, meta })
    }

    /// Short format of the message for logging purposes.
    pub fn short_format(&self) -> (r: String)
        ensures
            r@ == "<"@ + self.username@ + "> "@ + self.msg.text@,
    {
        let mut s = String::new();
        s.append("<");
        s.append(self.username.as_str());
        s.append("> ");
        s.append(self.msg.text.as_str());
        proof {
            assert(s@ =~= "<"@ + self.username@ + "> "@ + self.msg.text@);
        }
        s
    }

    /// Message is a server whisper and should not be logged.
    pub fn should_be_skipped(&self) -> (r: bool)
        ensures
            r == spec_suppressed(*self),
    {
        if let Some(add_class) = &self.meta.add_class {
            return str_eq(add_class.as_str(), "server-whisper");
        }
        false
    }

    /// One transcript line for the record: tab-separated time, team (a
    /// placeholder when absent), sender and text.
    pub fn line_format(&self) -> (r: String)
        ensures
            r@ == spec_line(*self),
    {
        let mut s = u64_to_string(self.time);
        s.append("\t");
        let team = self.msg.team.display_string();
        s.append(team.as_str());
        s.append("\t");
        s.append(self.username.as_str());
        s.append("\t");
        s.append(self.msg.text.as_str());
        proof {
            assert(s@ =~= spec_line(*self));
        }
        s
    }
}

/// The transcript line of a decoded record.
pub open spec fn spec_line(m: ChatMessage) -> Seq<char> {
    dec_str_of(m.time as int) + "\t"@ + team_display(team_view(m.msg.team)) + "\t"@ + m.username@
        + "\t"@ + m.msg.text@
}

/// How an optional team tag appears in a transcript line.
pub open spec fn team_display(o: Option<Seq<char>>) -> Seq<char> {
    match o {
        Some(tag) => tag,
        None => "NULL"@,
    }
}

impl Team {
    /// The team as it appears in a transcript line: its name, or a
    /// placeholder when there is none.
    pub fn display_string(&self) -> (r: String)
        ensures
            r@ == team_display(team_view(*self)),
    {
        match self {
            Team::Empty => {
                let s: &str = "NULL";
                s.to_owned()
            },
            Team::Named(name) => name.clone(),
        }
    }
}

/// The fallback for an optional string in a report line.
pub open spec fn opt_or(o: Option<Seq<char>>, d: Seq<char>) -> Seq<char> {
    match o {
        Some(s) => s,
        None => d,
    }
}

/// The observability line for a decoded login outcome.
pub open spec fn spec_login_report(l: Login) -> Seq<char> {
    if l.success {
        "Logged in as guest "@ + opt_or(opt_string_view(l.name), "Unknown"@)
    } else {
        "Login failed: "@ + opt_or(opt_string_view(l.error), "Unknown error"@)
    }
}

impl Login {
    /// The line reporting this outcome on the observability channel.
    pub fn report_line(&self) -> (r: String)
        ensures
            r@ == spec_login_report(*self),
    {
        let mut s = String::new();
        if self.success {
            s.append("Logged in as guest ");
            match &self.name {
                Some(n) => s.append(n.as_str()),
                None => s.append("Unknown"),
            };
        } else {
            s.append("Login failed: ");
            match &self.error {
                Some(e) => s.append(e.as_str()),
                None => s.append("Unknown error"),
            };
        }
        proof {
            assert(s@ =~= spec_login_report(*self));
        }
        s
    }

    /// Decodes one raw login payload, or says that the `success` field is
    /// missing.
    pub fn decode(raw: &RawLoginPayload) -> (r: Result<Login, DecodeError>)
        ensures
            r is Ok <==> raw.success is Some,
            raw.success is None ==> (r matches Err(e) && e is MissingSuccess),
            r matches Ok(l) ==> {
                &&& l.success == raw.success->0
                &&& opt_string_view(l.name) == opt_string_view(raw.name)
                &&& opt_string_view(l.error) == opt_string_view(raw.error)
            },
    {
        let success = match raw.success {
            Some(s) => s,
            None => {
                return Err(DecodeError::MissingSuccess);
            },
        };
        let name = match &raw.name {
            Some(n) => Some(n.clone()),
            None => None,
        };
        let error = match &raw.error {
            Some(e) => Some(e.clone()),
            None => None,
        };
        Ok(Login { error, name, success })
    }
}

/// One entry of the server configuration document: a reachable server.
#[derive(Debug)]
pub struct SocketConfigServer {
    /// The server's address.
    pub url: String,
}

/// The server configuration document: the servers offered for a channel.
#[derive(Debug)]
pub struct SocketConfig {
    /// The offered servers, in the order the document lists them.
    pub servers: Vec<SocketConfigServer>,
}

impl SocketConfig {
    /// Selects the address to connect to: the head of the server list, or
    /// nothing when the document offers no server.
    pub fn first_server_url(&self) -> (r: Option<String>)
        ensures
            r is Some <==> self.servers@.len() > 0,
            r matches Some(u) ==> u@ == self.servers@[0].url@,
    {
        if self.servers.len() > 0 {
            Some(self.servers[0].url.clone())
        } else {
            None
        }
    }
}

} // verus!
