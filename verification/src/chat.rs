//! The rules of the classroom chat and of the notices that the teacher gets.
//!
//! A chat connection first names itself and then sends messages, to everyone
//! or to one client. This file decides what each message means and writes the
//! texts that go out; the caller keeps the connections and does the sending.

use crate::json::{
    json_members, json_object, json_object_text, lists_view, members_view, read_json_members,
    text_view, texts_view, Members,
};
use crate::message::{Inbound, InboundView};
use crate::text::same_text;
use vstd::prelude::*;
use vstd::string::StringExecFns;

verus! {

/// The id that stands in when a client names none.
pub open spec fn placeholder_id() -> Seq<char> {
    "unknown"@
}

/// The id under which the teacher's dashboard is registered: notices go to
/// the client of this id.
pub const TEACHER_ID: &'static str = "teacher";

/// The recipient that means every client.
pub open spec fn everyone() -> Seq<char> {
    "all"@
}

/// A text, or the fallback where it is absent.
pub open spec fn text_or(text: Option<Seq<char>>, fallback: Seq<char>) -> Seq<char> {
    match text {
        Some(t) => t,
        None => fallback,
    }
}

/// The text of a system message.
pub open spec fn system_text(content: Seq<char>, now: Seq<char>) -> Seq<char> {
    json_object_text(
        seq![("type"@, "system"@), ("content"@, content), ("timestamp"@, now)],
        seq![],
    )
}

/// The text of a chat message.
pub open spec fn chat_text(from: Seq<char>, to: Seq<char>, content: Seq<char>, now: Seq<char>)
    -> Seq<char> {
    json_object_text(
        seq![
            ("type"@, "chat"@),
            ("from"@, from),
            ("to"@, to),
            ("content"@, content),
            ("timestamp"@, now),
        ],
        seq![],
    )
}

/// The text of the notice of a notification that a student's agent raised.
pub open spec fn notification_text(
    hostname: Seq<char>,
    title: Seq<char>,
    message: Seq<char>,
    level: Seq<char>,
    timestamp: Seq<char>,
) -> Seq<char> {
    json_object_text(
        seq![
            ("type"@, "notification"@),
            ("hostname"@, hostname),
            ("title"@, title),
            ("message"@, message),
            ("level"@, level),
            ("timestamp"@, timestamp),
        ],
        seq![],
    )
}

/// The text of the notice of a violation that a student's agent reported.
pub open spec fn violation_text(
    hostname: Seq<char>,
    rule: Seq<char>,
    detail: Seq<char>,
    severity: Seq<char>,
    timestamp: Seq<char>,
) -> Seq<char> {
    json_object_text(
        seq![
            ("type"@, "violation"@),
            ("hostname"@, hostname),
            ("rule"@, rule),
            ("detail"@, detail),
            ("severity"@, severity),
            ("timestamp"@, timestamp),
        ],
        seq![],
    )
}

/// What the caller does for one message of a chat connection.
#[derive(Debug, PartialEq, Eq)]
pub enum ChatCommand {
    /// Nothing.
    Ignore,
    /// Register the connection under `id`, replacing whoever held the id, and
    /// send `announcement` to every client but `id`.
    Identify { id: String, announcement: String },
    /// Send `text` to every client but the one registered as `except`.
    Broadcast { text: String, except: String },
    /// Send `text` to the client `to` if it is registered, and back to the
    /// sender in any case.
    Direct { to: String, text: String },
    /// The connection is over.
    Leave,
}

/// A command as the contracts see it.
pub enum ChatCommandView {
    Ignore,
    Identify { id: Seq<char>, announcement: Seq<char> },
    Broadcast { text: Seq<char>, except: Seq<char> },
    Direct { to: Seq<char>, text: Seq<char> },
    Leave,
}

impl View for ChatCommand {
    type V = ChatCommandView;

    open spec fn view(&self) -> ChatCommandView {
        match self {
            ChatCommand::Ignore => ChatCommandView::Ignore,
            ChatCommand::Identify { id, announcement } => ChatCommandView::Identify {
                id: id@,
                announcement: announcement@,
            },
            ChatCommand::Broadcast { text, except } => ChatCommandView::Broadcast {
                text: text@,
                except: except@,
            },
            ChatCommand::Direct { to, text } => ChatCommandView::Direct { to: to@, text: text@ },
            ChatCommand::Leave => ChatCommandView::Leave,
        }
    }
}

/// What a text message means, given its members `type` and `id` as `head`
/// and its members `to` and `content` as `body`.
///
/// A text that is no JSON, or whose type is neither `identify` nor `chat`,
/// means nothing. `identify` names the client, `unknown` where the id is
/// missing. `chat` goes to the recipient `to`, to everyone where `to` is
/// missing or `all`; a message to everyone skips the client that registered
/// under the empty id.
pub open spec fn command_of(
    client_id: Seq<char>,
    head: Option<(Option<Seq<char>>, Option<Seq<char>>)>,
    body: Option<(Option<Seq<char>>, Option<Seq<char>>)>,
    now: Seq<char>,
) -> ChatCommandView {
    match (head, body) {
        (Some((kind, id)), Some((to, content))) => if kind == Some("identify"@) {
            ChatCommandView::Identify {
                id: text_or(id, placeholder_id()),
                announcement: system_text(text_or(id, placeholder_id()) + " joined the chat"@, now),
            }
        } else if kind == Some("chat"@) {
            let text = chat_text(client_id, text_or(to, everyone()), text_or(content, ""@), now);
            if text_or(to, everyone()) == everyone() {
                ChatCommandView::Broadcast { text, except: ""@ }
            } else {
                ChatCommandView::Direct { to: text_or(to, everyone()), text }
            }
        } else {
            ChatCommandView::Ignore
        },
        _ => ChatCommandView::Ignore,
    }
}

/// What one message of a chat connection means.
pub open spec fn chat_step(client_id: Seq<char>, message: InboundView, now: Seq<char>)
    -> ChatCommandView {
    match message {
        InboundView::Text(text) => command_of(
            client_id,
            json_members(text, "type"@, "id"@),
            json_members(text, "to"@, "content"@),
            now,
        ),
        InboundView::Close | InboundView::Lost => ChatCommandView::Leave,
        _ => ChatCommandView::Ignore,
    }
}

/// The id of a client after a command.
pub open spec fn id_after(client_id: Seq<char>, command: ChatCommandView) -> Seq<char> {
    match command {
        ChatCommandView::Identify { id, announcement } => id,
        _ => client_id,
    }
}

/// The farewell of a client: none for a connection that never named itself.
pub open spec fn farewell_of(client_id: Seq<char>, now: Seq<char>) -> Option<Seq<char>> {
    if client_id.len() == 0 {
        None
    } else {
        Some(system_text(client_id + " left the chat"@, now))
    }
}

/// Writes an object whose members are all texts.
fn write_texts(texts: &[(&str, &str)]) -> (text: String)
    ensures
        text@ == json_object_text(texts_view(texts@), seq![]),
{
    let lists: [(&str, &Vec<String>); 0] = [];
    assert(lists_view(lists@) =~= seq![]);
    json_object(texts, &lists)
}

/// Writes a system message.
fn system_message(subject: &str, event: &str, now: &str) -> (text: String)
    ensures
        text@ == system_text(subject@ + event@, now@),
{
    let mut content = subject.to_owned();
    content.append(event);
    let texts = [("type", "system"), ("content", content.as_str()), ("timestamp", now)];
    assert(texts_view(texts@) =~= seq![
        ("type"@, "system"@),
        ("content"@, subject@ + event@),
        ("timestamp"@, now@),
    ]);
    write_texts(&texts)
}

/// A text, or the fallback where it is absent.
fn or_text(text: Option<String>, fallback: &str) -> (chosen: String)
    ensures
        chosen@ == text_or(text_view(text), fallback@),
{
    match text {
        Some(t) => t,
        None => fallback.to_owned(),
    }
}

/// Decides what a text message means from the members that were read in it.
pub fn route_chat(client_id: &str, head: Members, body: Members, now: &str) -> (command:
    ChatCommand)
    ensures
        command@ == command_of(client_id@, members_view(head), members_view(body), now@),
{
    match (head, body) {
        (Some((Some(kind), id)), Some((to, content))) => {
            if same_text(kind.as_str(), "identify") {
                let id = or_text(id, "unknown");
                let announcement = system_message(id.as_str(), " joined the chat", now);
                ChatCommand::Identify { id, announcement }
            } else if same_text(kind.as_str(), "chat") {
                let to = or_text(to, "all");
                let content = or_text(content, "");
                let texts = [
                    ("type", "chat"),
                    ("from", client_id),
                    ("to", to.as_str()),
                    ("content", content.as_str()),
                    ("timestamp", now),
                ];
                assert(texts_view(texts@) =~= seq![
                    ("type"@, "chat"@),
                    ("from"@, client_id@),
                    ("to"@, to@),
                    ("content"@, content@),
                    ("timestamp"@, now@),
                ]);
                let text = write_texts(&texts);
                if same_text(to.as_str(), "all") {
                    proof {
                        reveal_strlit("");
                    }
                    let except = String::new();
                    assert(except@ =~= ""@);
                    ChatCommand::Broadcast { text, except }
                } else {
                    ChatCommand::Direct { to, text }
                }
            } else {
                ChatCommand::Ignore
            }
        },
        _ => ChatCommand::Ignore,
    }
}

/// Whether a broadcast that leaves out `except` reaches `recipient`.
pub fn reaches(recipient: &str, except: &str) -> (reached: bool)
    ensures
        reached == (recipient@ != except@),
{
    !same_text(recipient, except)
}

/// Writes the notice of a notification for the teacher's dashboard.
pub fn notification_notice(
    hostname: &str,
    title: &str,
    message: &str,
    level: &str,
    timestamp: &str,
) -> (text: String)
    ensures
        text@ == notification_text(hostname@, title@, message@, level@, timestamp@),
{
    let texts = [
        ("type", "notification"),
        ("hostname", hostname),
        ("title", title),
        ("message", message),
        ("level", level),
        ("timestamp", timestamp),
    ];
    assert(texts_view(texts@) =~= seq![
        ("type"@, "notification"@),
        ("hostname"@, hostname@),
        ("title"@, title@),
        ("message"@, message@),
        ("level"@, level@),
        ("timestamp"@, timestamp@),
    ]);
    write_texts(&texts)
}

/// Writes the notice of a violation for the teacher's dashboard.
pub fn violation_notice(
    hostname: &str,
    rule: &str,
    detail: &str,
    severity: &str,
    timestamp: &str,
) -> (text: String)
    ensures
        text@ == violation_text(hostname@, rule@, detail@, severity@, timestamp@),
{
    let texts = [
        ("type", "violation"),
        ("hostname", hostname),
        ("rule", rule),
        ("detail", detail),
        ("severity", severity),
        ("timestamp", timestamp),
    ];
    assert(texts_view(texts@) =~= seq![
        ("type"@, "violation"@),
        ("hostname"@, hostname@),
        ("rule"@, rule@),
        ("detail"@, detail@),
        ("severity"@, severity@),
        ("timestamp"@, timestamp@),
    ]);
    write_texts(&texts)
}

/// The part of a chat connection that the rules need: the id that the
/// client gave itself, empty until it does.
pub struct ChatSession {
    client_id: String,
}

impl View for ChatSession {
    type V = Seq<char>;

    closed spec fn view(&self) -> Seq<char> {
        self.client_id@
    }
}

impl ChatSession {
    /// A connection that has not named itself.
    pub fn new() -> (session: ChatSession)
        ensures
            session@ == Seq::<char>::empty(),
    {
        ChatSession { client_id: String::new() }
    }

    /// The id that the client gave itself, empty until it does.
    pub fn client_id(&self) -> (id: &str)
        ensures
            id@ == self@,
    {
        self.client_id.as_str()
    }

    /// Decides what one message of the connection means. `now` is the time
    /// that outgoing texts are stamped with. A client that names itself is
    /// known by that id from then on.
    pub fn on_message(&mut self, message: &Inbound, now: &str) -> (command: ChatCommand)
        ensures
            command@ == chat_step(old(self)@, message@, now@),
            final(self)@ == id_after(old(self)@, command@),
    {
        match message {
            Inbound::Text(text) => {
                let head = read_json_members(text.as_str(), "type", "id");
                let body = read_json_members(text.as_str(), "to", "content");
                let command = route_chat(self.client_id.as_str(), head, body, now);
                match &command {
                    ChatCommand::Identify { id, announcement } => {
                        self.client_id = id.clone();
                    },
                    _ => {},
                }
                command
            },
            Inbound::Close => ChatCommand::Leave,
            Inbound::Lost => ChatCommand::Leave,
            _ => ChatCommand::Ignore,
        }
    }

    /// The message that tells the others that this client has left: none for
    /// a connection that never named itself. It goes to every client but the
    /// one registered under this id, which is taken out of the register.
    pub fn farewell(&self, now: &str) -> (text: Option<String>)
        ensures
            text_view(text) == farewell_of(self@, now@),
    {
        if self.client_id.as_str().is_empty() {
            None
        } else {
            Some(system_message(self.client_id.as_str(), " left the chat", now))
        }
    }
}

} // verus!
