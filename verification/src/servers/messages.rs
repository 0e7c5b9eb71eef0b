use crate::message::Message;
use crate::message::ServerMessage;
use crate::string_map::StringMap;
use crate::utils::address::addr;
use crate::utils::address::SocketAddress;
use tokio::sync::mpsc::Sender;
use vstd::prelude::*;

verus! {

/// What a message server is, as the contracts see it: its identifier, the
/// address it listens on, and the sending half of the connection of each
/// user who is connected to it.
pub struct MessageServerView {
    pub id: Seq<char>,
    pub addr: SocketAddress,
    pub connections: Map<Seq<char>, Sender<Message>>,
}

/// The address of the server that maps users to their message servers.
pub open spec fn spec_user_mapping_server_addr() -> SocketAddress {
    SocketAddress::V4 { ip: [0u8, 0u8, 0u8, 0u8], port: 3000 }
}

/// The address of the server that maps users to their message servers.
pub fn user_mapping_server_addr() -> (a: SocketAddress)
    ensures
        a == spec_user_mapping_server_addr(),
{
    addr([0, 0, 0, 0], 3000)
}

/// A server to which users connect to exchange messages.
pub struct MessageServer {
    id: String,
    addr: SocketAddress,
    connections: StringMap<Sender<Message>>,
}

impl View for MessageServer {
    type V = MessageServerView;

    closed spec fn view(&self) -> MessageServerView {
        MessageServerView { id: self.id@, addr: self.addr, connections: self.connections@ }
    }
}

impl MessageServer {
    /// No user holds two connections.
    pub closed spec fn wf(self) -> bool {
        self.connections.wf()
    }

    pub fn new(id: String, addr: SocketAddress) -> (s: Self)
        ensures
            s@ == (MessageServerView {
                id: id@,
                addr: addr,
                connections: Map::<Seq<char>, Sender<Message>>::empty(),
            }),
            s.wf(),
    {
        Self { id, addr, connections: StringMap::new() }
    }

    pub fn get_id(&self) -> (r: String)
        ensures
            r@ == self@.id,
    {
        self.id.clone()
    }

    pub fn get_addr(&self) -> (r: SocketAddress)
        ensures
            r == self@.addr,
    {
        self.addr
    }

    /// Records the connection of a user, in place of any earlier one.
    pub fn register_connection(&mut self, user_id: String, sender: Sender<Message>)
        ensures
            final(self)@ == (MessageServerView {
                id: old(self)@.id,
                addr: old(self)@.addr,
                connections: old(self)@.connections.insert(user_id@, sender),
            }),
            old(self).wf() ==> final(self).wf(),
    {
        self.connections.insert(user_id, sender);
    }

    /// The connection of a user who is connected to this server, if any.
    pub fn local_connection(&self, user_id: &String) -> (r: Option<&Sender<Message>>)
        ensures
            match r {
                Some(s) => self@.connections.contains_key(user_id@) && *s
                    == self@.connections[user_id@],
                None => !self@.connections.contains_key(user_id@),
            },
    {
        self.connections.get(user_id)
    }
}

/// What arrives on a user's websocket: a close frame, a text frame, a
/// broken frame, the end of the stream, or a frame of another kind.
pub enum SocketEvent {
    Close,
    Text(String),
    Error,
    Ended,
    Other,
}

/// What a message server does about what arrived: stop serving the user,
/// process a text message, answer with a text, give up on a stream that
/// ended without a close frame, or let it pass.
pub enum ConnectionAction {
    Stop,
    Process(String),
    Reply(String),
    Fail,
    Ignore,
}

/// The answer to a frame that could not be read.
pub open spec fn error_reply() -> Seq<char> {
    seq!['E', 'r', 'r', 'o', 'r']
}

/// Decides what a message server does about what arrived on a user's
/// websocket.
pub fn connection_step(event: SocketEvent) -> (a: ConnectionAction)
    ensures
        match event {
            SocketEvent::Close => a is Stop,
            SocketEvent::Text(msg) => a matches ConnectionAction::Process(m) && m@ == msg@,
            SocketEvent::Error => a matches ConnectionAction::Reply(text) && text@ == error_reply(),
            SocketEvent::Ended => a is Fail,
            SocketEvent::Other => a is Ignore,
        },
{
    match event {
        SocketEvent::Close => ConnectionAction::Stop,
        SocketEvent::Text(msg) => ConnectionAction::Process(msg),
        SocketEvent::Error => {
            let text = String::from_str("Error");
            proof {
                reveal_strlit("Error");
                assert(text@ =~= error_reply());
            }
            ConnectionAction::Reply(text)
        },
        SocketEvent::Ended => ConnectionAction::Fail,
        SocketEvent::Other => ConnectionAction::Ignore,
    }
}

/// The answer to a user's text message: `Message received` when it was read
/// as a message and handed on; otherwise `Message not valid` when it could
/// not be read, and `Something gone wrong` when it could not be handed on.
pub open spec fn user_message_reply_text(parsed: bool, forwarded: bool) -> Seq<char> {
    if !parsed {
        seq!['M', 'e', 's', 's', 'a', 'g', 'e', ' ', 'n', 'o', 't', ' ', 'v', 'a', 'l', 'i', 'd']
    } else if !forwarded {
        seq![
            'S', 'o', 'm', 'e', 't', 'h', 'i', 'n', 'g', ' ', 'g', 'o', 'n', 'e', ' ', 'w', 'r', 'o',
            'n', 'g'
        ]
    } else {
        seq!['M', 'e', 's', 's', 'a', 'g', 'e', ' ', 'r', 'e', 'c', 'e', 'i', 'v', 'e', 'd']
    }
}

/// Decides the answer to a user's text message, given whether it was read
/// as a message and whether it was handed on; `Ok` only when both held.
pub fn user_message_reply(parsed: bool, forwarded: bool) -> (r: Result<String, String>)
    ensures
        match r {
            Ok(text) => parsed && forwarded && text@ == user_message_reply_text(parsed, forwarded),
            Err(text) => !(parsed && forwarded) && text@ == user_message_reply_text(
                parsed,
                forwarded,
            ),
        },
{
    if !parsed {
        let text = String::from_str("Message not valid");
        proof {
            reveal_strlit("Message not valid");
            assert(text@ =~= user_message_reply_text(parsed, forwarded));
        }
        Err(text)
    } else if !forwarded {
        let text = String::from_str("Something gone wrong");
        proof {
            reveal_strlit("Something gone wrong");
            assert(text@ =~= user_message_reply_text(parsed, forwarded));
        }
        Err(text)
    } else {
        let text = String::from_str("Message received");
        proof {
            reveal_strlit("Message received");
            assert(text@ =~= user_message_reply_text(parsed, forwarded));
        }
        Ok(text)
    }
}

/// The line that a message server prints for a message from one of its users:
/// the sender, ` >`, a tab and the content.
pub open spec fn console_line_text(sender_id: Seq<char>, content: Seq<char>) -> Seq<char> {
    sender_id + seq![' ', '>', '\t'] + content
}

/// The line that a message server prints for a message from one of its users.
pub fn console_line(msg: &ServerMessage) -> (line: String)
    ensures
        line@ == console_line_text(msg@.sender_id, msg@.content),
        line@.len() == (msg@.sender_id.len() as int) + 3 + msg@.content.len(),
        line@.subrange(0, (msg@.sender_id.len() as int)) == msg@.sender_id,
        line@.subrange((msg@.sender_id.len() as int), (msg@.sender_id.len() as int) + 3)
            == seq![' ', '>', '\t'],
        line@.subrange((msg@.sender_id.len() as int) + 3, line@.len() as int) == msg@.content,
{
    let mut line = msg.get_sender_id();
    line.append(" >\t");
    let content = msg.get_content();
    line.append(content.as_str());
    proof {
        reveal_strlit(" >\t");
        assert(line@ =~= console_line_text(msg@.sender_id, msg@.content));
        lemma_console_line_layout(msg@.sender_id, msg@.content);
    }
    line
}

/// The console line of a message holds, in order and in full: the sender,
/// ` >`, a tab and the whole content; nothing is cut and nothing else is added.
pub proof fn lemma_console_line_layout(sender_id: Seq<char>, content: Seq<char>)
    ensures
        ({
            let line = console_line_text(sender_id, content);
            let s = sender_id.len() as int;
            &&& line.len() == s + 3 + content.len()
            &&& line.subrange(0, s) == sender_id
            &&& line.subrange(s, s + 3) == seq![' ', '>', '\t']
            &&& line.subrange(s + 3, line.len() as int) == content
        }),
{
    let line = console_line_text(sender_id, content);
    let s = sender_id.len() as int;
    assert(line.subrange(0, s) =~= sender_id);
    assert(line.subrange(s, s + 3) =~= seq![' ', '>', '\t']);
    assert(line.subrange(s + 3, line.len() as int) =~= content);
}

} // verus!
