//! The chat server's logic: usernames, the messages it broadcasts, and what a
//! client session does with each event it sees.
//!
//! Clients see each other's chat lines as `{sender}: {text}` and the
//! announcements as `{sender} {text}`: `User3 has joined the chat`,
//! `User3 has left the chat`, `Server is shutting down...`.

use vstd::prelude::*;
use vstd::string::*;
use crate::text::{decimal, decimal_string, lemma_decimal_injective, trim, trim_whitespace};

verus! {

/// The name given to the `n`-th client: `User{n}`.
pub open spec fn username(n: nat) -> Seq<char> {
    seq!['U', 's', 'e', 'r'] + decimal(n)
}

/// The sender name the server uses for its own announcements.
pub open spec fn server_name() -> Seq<char> {
    seq!['S', 'e', 'r', 'v', 'e', 'r']
}

/// Text of the announcement when a client joins.
pub open spec fn joined_text() -> Seq<char> {
    seq!['h', 'a', 's', ' ', 'j', 'o', 'i', 'n', 'e', 'd', ' ', 't', 'h', 'e', ' ', 'c', 'h', 'a', 't']
}

/// Text of the announcement when a client leaves.
pub open spec fn left_text() -> Seq<char> {
    seq!['h', 'a', 's', ' ', 'l', 'e', 'f', 't', ' ', 't', 'h', 'e', ' ', 'c', 'h', 'a', 't']
}

/// Text of the server's shutdown announcement.
pub open spec fn shutdown_text() -> Seq<char> {
    seq!['i', 's', ' ', 's', 'h', 'u', 't', 't', 'i', 'n', 'g', ' ', 'd', 'o', 'w', 'n', '.', '.', '.']
}

/// Whether a message is something a client said or an announcement about
/// its sender.
#[derive(Clone, Copy, Debug, PartialEq, Eq, Structural)]
pub enum MessageKind {
    Chat,
    Notice,
}

/// The line written to a client for a message: `{sender}: {text}\r\n` for a
/// chat line, `{sender} {text}\r\n` for an announcement.
pub open spec fn relay_line(kind: MessageKind, sender: Seq<char>, text: Seq<char>) -> Seq<char> {
    match kind {
        MessageKind::Chat => sender + seq![':', ' '] + text + seq!['\r', '\n'],
        MessageKind::Notice => sender + seq![' '] + text + seq!['\r', '\n'],
    }
}

/// Hands out the names `User1`, `User2`, ... in order.
pub struct UserManager {
    user_id: u32,
}

impl View for UserManager {
    /// The number that the next name will carry.
    type V = nat;

    closed spec fn view(&self) -> nat {
        self.user_id as nat
    }
}

impl UserManager {
    /// A manager whose first name is `User1`.
    pub fn new() -> (m: Self)
        ensures
            m@ == 1,
    {
        UserManager { user_id: 1 }
    }

    /// The number that the next name will carry.
    pub fn next_id(&self) -> (id: u32)
        ensures
            id == self@,
    {
        self.user_id
    }

    /// Returns the next name, `User{n}`, and moves on to `n + 1`.
    pub fn create(&mut self) -> (name: String)
        requires
            old(self)@ < u32::MAX,
        ensures
            name@ == username(old(self)@),
            final(self)@ == old(self)@ + 1,
    {
        let mut name = String::from_str("User");
        proof {
            reveal_strlit("User");
        }
        assert("User"@ =~= seq!['U', 's', 'e', 'r']);
        let digits = decimal_string(self.user_id as u64);
        name.append(digits.as_str());
        self.user_id = self.user_id + 1;
        name
    }
}

/// A chat message: who sent it, what it says, and whether it is a chat line
/// or an announcement.
#[derive(Clone, Debug)]
pub struct Message {
    pub sender: String,
    pub message: String,
    pub kind: MessageKind,
}

impl Message {
    /// A chat line from `sender`.
    pub fn new(sender: String, message: String) -> (m: Self)
        ensures
            m.sender@ == sender@,
            m.message@ == message@,
            m.kind == MessageKind::Chat,
    {
        Message { sender, message, kind: MessageKind::Chat }
    }

    /// An announcement about `sender`.
    pub fn notice(sender: String, message: String) -> (m: Self)
        ensures
            m.sender@ == sender@,
            m.message@ == message@,
            m.kind == MessageKind::Notice,
    {
        Message { sender, message, kind: MessageKind::Notice }
    }
}

/// Whether `m` is of `kind`, was sent by `sender` and says `text`.
pub open spec fn message_is(m: Message, kind: MessageKind, sender: Seq<char>, text: Seq<char>) -> bool {
    m.kind == kind && m.sender@ == sender && m.message@ == text
}

/// The announcement that `sender` joined.
pub fn join_message(sender: String) -> (m: Message)
    ensures
        message_is(m, MessageKind::Notice, sender@, joined_text()),
{
    proof {
        reveal_strlit("has joined the chat");
    }
    assert("has joined the chat"@ =~= joined_text());
    Message::notice(sender, String::from_str("has joined the chat"))
}

/// The announcement that `sender` left.
pub fn leave_message(sender: String) -> (m: Message)
    ensures
        message_is(m, MessageKind::Notice, sender@, left_text()),
{
    proof {
        reveal_strlit("has left the chat");
    }
    assert("has left the chat"@ =~= left_text());
    Message::notice(sender, String::from_str("has left the chat"))
}

/// The server's announcement that it is shutting down.
pub fn shutdown_message() -> (m: Message)
    ensures
        message_is(m, MessageKind::Notice, server_name(), shutdown_text()),
{
    proof {
        reveal_strlit("Server");
        reveal_strlit("is shutting down...");
    }
    assert("Server"@ =~= server_name());
    assert("is shutting down..."@ =~= shutdown_text());
    Message::notice(String::from_str("Server"), String::from_str("is shutting down..."))
}

/// The line written to a client for `m`.
pub fn relay_text(m: &Message) -> (line: String)
    ensures
        line@ == relay_line(m.kind, m.sender@, m.message@),
{
    proof {
        reveal_strlit(": ");
        reveal_strlit(" ");
        reveal_strlit("\r\n");
    }
    assert(": "@ =~= seq![':', ' ']);
    assert(" "@ =~= seq![' ']);
    assert("\r\n"@ =~= seq!['\r', '\n']);
    let mut line = m.sender.clone();
    match m.kind {
        MessageKind::Chat => line.append(": "),
        MessageKind::Notice => line.append(" "),
    }
    line.append(m.message.as_str());
    line.append("\r\n");
    line
}

/// What the session of the client named `name` writes for a broadcast message
/// of `kind` from `sender` saying `text`: nothing for what it sent itself, the
/// relay line for everything else.
pub open spec fn delivery(name: Seq<char>, kind: MessageKind, sender: Seq<char>, text: Seq<char>) -> Option<Seq<char>> {
    if sender == name {
        None
    } else {
        Some(relay_line(kind, sender, text))
    }
}

/// What a client session sees next.
pub enum ClientEvent {
    /// A line read from the client, with its line ending; empty when the
    /// client closed the connection.
    LineRead(String),
    /// A message that arrived on the broadcast channel.
    Broadcast(Message),
    /// The server asked every session to wrap up.
    Cancelled,
    /// Broadcasting the session's last message failed.
    PublishFailed,
    /// Writing to the client failed.
    WriteFailed,
}

/// What a client session does.
pub enum SessionAction {
    /// Broadcast this message and keep going; if that fails, the session
    /// sees `PublishFailed`.
    Publish(Message),
    /// Broadcast this message, then end the session whether or not that
    /// succeeded.
    Leave(Message),
    /// Write this text to the client and keep going; if that fails, the
    /// session sees `WriteFailed`.
    Deliver(String),
    /// Do nothing and keep going.
    Ignore,
    /// Hand every broadcast still queued for this session to `session_step`
    /// and write what it delivers, then end the session.
    Drain,
    /// End the session.
    Close,
}

/// How the session of the client named `name` opens: by announcing that the
/// client joined.
pub fn session_start(name: &String) -> (action: SessionAction)
    ensures
        action matches SessionAction::Publish(m) && message_is(m, MessageKind::Notice, name@, joined_text()),
{
    SessionAction::Publish(join_message(name.clone()))
}

/// The session of the client named `name`: an empty read means the client
/// left; any other line is broadcast with surrounding whitespace removed; a
/// broadcast message is written to the client unless the client sent it; a
/// cancellation first lets the queued broadcasts (the shutdown notice among
/// them) through, then ends the session; a failed broadcast or write ends it.
pub fn session_step(name: &String, event: ClientEvent) -> (action: SessionAction)
    ensures
        match event {
            ClientEvent::LineRead(line) => if line@.len() == 0 {
                action matches SessionAction::Leave(m) && message_is(m, MessageKind::Notice, name@, left_text())
            } else {
                action matches SessionAction::Publish(m) && message_is(m, MessageKind::Chat, name@, trim(line@))
            },
            ClientEvent::Broadcast(m) => match delivery(name@, m.kind, m.sender@, m.message@) {
                None => action is Ignore,
                Some(line) => action matches SessionAction::Deliver(text) && text@ == line,
            },
            ClientEvent::Cancelled => action is Drain,
            ClientEvent::PublishFailed => action is Close,
            ClientEvent::WriteFailed => action is Close,
        },
{
    match event {
        ClientEvent::LineRead(line) => {
            if line.as_str().unicode_len() == 0 {
                SessionAction::Leave(leave_message(name.clone()))
            } else {
                let content = trim_whitespace(line.as_str());
                SessionAction::Publish(Message::new(name.clone(), content))
            }
        },
        ClientEvent::Broadcast(m) => {
            if m.sender == *name {
                SessionAction::Ignore
            } else {
                SessionAction::Deliver(relay_text(&m))
            }
        },
        ClientEvent::Cancelled => SessionAction::Drain,
        ClientEvent::PublishFailed => SessionAction::Close,
        ClientEvent::WriteFailed => SessionAction::Close,
    }
}

/// No two names from one manager coincide: the numbers differ, so do the names.
pub proof fn lemma_usernames_distinct(a: nat, b: nat)
    requires
        a != b,
    ensures
        username(a) != username(b),
{
    if username(a) == username(b) {
        assert(username(a).subrange(4, username(a).len() as int) =~= decimal(a));
        assert(username(b).subrange(4, username(b).len() as int) =~= decimal(b));
        lemma_decimal_injective(a, b);
    }
}

/// The server's announcements never carry a client's name, so every session
/// writes the shutdown notice `Server is shutting down...` to its client.
pub proof fn lemma_server_is_no_user(n: nat)
    ensures
        server_name() != username(n),
        delivery(username(n), MessageKind::Notice, server_name(), shutdown_text())
            == Some(server_name() + seq![' '] + shutdown_text() + seq!['\r', '\n']),
{
    assert(server_name()[0] == 'S');
    assert(username(n)[0] == 'U');
}

/// Every message reaches all clients but its sender: what user `a` says, and
/// the announcements that `a` joined or left, are written to user `b`'s client
/// when `a != b` (`User{a}: {text}`, `User{a} has joined the chat`,
/// `User{a} has left the chat`), and nothing is written back to `a`'s own.
pub proof fn lemma_relayed_to_others_only(a: nat, b: nat, kind: MessageKind, text: Seq<char>)
    requires
        a != b,
    ensures
        delivery(username(b), kind, username(a), text) == Some(relay_line(kind, username(a), text)),
        delivery(username(a), kind, username(a), text) is None,
        delivery(username(b), MessageKind::Notice, username(a), joined_text())
            == Some(username(a) + seq![' '] + joined_text() + seq!['\r', '\n']),
        delivery(username(b), MessageKind::Notice, username(a), left_text())
            == Some(username(a) + seq![' '] + left_text() + seq!['\r', '\n']),
{
    lemma_usernames_distinct(a, b);
}

} // verus!
