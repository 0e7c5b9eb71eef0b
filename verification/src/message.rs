use crate::clock::seconds_since_epoch;
use vstd::prelude::*;

verus! {

/// What a chat message is, as the contracts see it.
pub struct MessageView {
    pub message_id: Seq<char>,
    pub sender_id: Seq<char>,
    pub room_id: Seq<char>,
    pub content: Seq<char>,
    pub time_stamp: u64,
}

/// A chat message, stamped with the second (since the Unix epoch) at which it
/// was made.
pub struct Message {
    message_id: String,
    sender_id: String,
    room_id: String,
    content: String,
    time_stamp: u64,
}

impl View for Message {
    type V = MessageView;

    closed spec fn view(&self) -> MessageView {
        MessageView {
            message_id: self.message_id@,
            sender_id: self.sender_id@,
            room_id: self.room_id@,
            content: self.content@,
            time_stamp: self.time_stamp,
        }
    }
}

impl Clone for Message {
    fn clone(&self) -> (res: Self)
        ensures
            res@ == self@,
    {
        Message {
            message_id: self.message_id.clone(),
            sender_id: self.sender_id.clone(),
            room_id: self.room_id.clone(),
            content: self.content.clone(),
            time_stamp: self.time_stamp,
        }
    }
}

/// The identifier given to every message that arrives from a message server.
pub open spec fn server_message_id() -> Seq<char> {
    seq!['1', '2', '3', '4']
}

impl Message {
    /// Makes a message stamped with the current time. It fails only when the
    /// system clock stands before the Unix epoch; the stamp is the clock's
    /// reading, of which nothing is known here.
    pub fn new(message_id: String, sender_id: String, room_id: String, content: String) -> (r:
        Result<Self, ()>)
        ensures
            r matches Ok(m) ==> {
                &&& m@.message_id == message_id@
                &&& m@.sender_id == sender_id@
                &&& m@.room_id == room_id@
                &&& m@.content == content@
            },
    {
        let clock = seconds_since_epoch();
        Self::with_clock_reading(message_id, sender_id, room_id, content, clock)
    }

    /// Makes a message from a reading of the clock in seconds since the Unix
    /// epoch, or fails as `new` does when the reading is an error.
    pub fn with_clock_reading(
        message_id: String,
        sender_id: String,
        room_id: String,
        content: String,
        since_epoch: Result<u64, ()>,
    ) -> (r: Result<Self, ()>)
        ensures
            match since_epoch {
                Ok(secs) => r matches Ok(m) && m@ == (MessageView {
                    message_id: message_id@,
                    sender_id: sender_id@,
                    room_id: room_id@,
                    content: content@,
                    time_stamp: secs,
                }),
                Err(_) => r is Err,
            },
    {
        match since_epoch {
            Ok(secs) => Ok(Self { message_id, sender_id, room_id, content, time_stamp: secs }),
            Err(_) => Err(()),
        }
    }

    pub fn get_message_id(&self) -> (r: String)
        ensures
            r@ == self@.message_id,
    {
        self.message_id.clone()
    }

    pub fn get_sender_id(&self) -> (r: String)
        ensures
            r@ == self@.sender_id,
    {
        self.sender_id.clone()
    }

    pub fn get_room_id(&self) -> (r: String)
        ensures
            r@ == self@.room_id,
    {
        self.room_id.clone()
    }

    pub fn get_content(&self) -> (r: String)
        ensures
            r@ == self@.content,
    {
        self.content.clone()
    }

    pub fn get_time_stamp(&self) -> (r: u64)
        ensures
            r == self@.time_stamp,
    {
        self.time_stamp
    }
}

/// What a message from a message server is, as the contracts see it.
pub struct ServerMessageView {
    pub sender_id: Seq<char>,
    pub room_id: Seq<char>,
    pub content: Seq<char>,
}

/// A message as a message server hands it over: who sent what to which room.
pub struct ServerMessage {
    sender_id: String,
    room_id: String,
    content: String,
}

impl View for ServerMessage {
    type V = ServerMessageView;

    closed spec fn view(&self) -> ServerMessageView {
        ServerMessageView {
            sender_id: self.sender_id@,
            room_id: self.room_id@,
            content: self.content@,
        }
    }
}

impl Clone for ServerMessage {
    fn clone(&self) -> (res: Self)
        ensures
            res@ == self@,
    {
        ServerMessage {
            sender_id: self.sender_id.clone(),
            room_id: self.room_id.clone(),
            content: self.content.clone(),
        }
    }
}

/// The chat message that a message from a message server becomes when it is
/// stamped with the second `t`.
pub open spec fn server_chat_message(m: ServerMessageView, t: u64) -> MessageView {
    MessageView {
        message_id: server_message_id(),
        sender_id: m.sender_id,
        room_id: m.room_id,
        content: m.content,
        time_stamp: t,
    }
}

impl ServerMessage {
    pub fn new(sender_id: String, room_id: String, content: String) -> (m: Self)
        ensures
            m@ == (ServerMessageView { sender_id: sender_id@, room_id: room_id@, content: content@ }),
    {
        Self { sender_id, room_id, content }
    }

    pub fn get_sender_id(&self) -> (r: String)
        ensures
            r@ == self@.sender_id,
    {
        self.sender_id.clone()
    }

    pub fn get_room_id(&self) -> (r: String)
        ensures
            r@ == self@.room_id,
    {
        self.room_id.clone()
    }

    pub fn get_content(&self) -> (r: String)
        ensures
            r@ == self@.content,
    {
        self.content.clone()
    }

    /// Turns the message into a chat message with the identifier `1234`,
    /// stamped with the current time; fails only when the system clock stands
    /// before the Unix epoch.
    pub fn into_message(self) -> (r: Result<Message, ()>)
        ensures
            r matches Ok(m) ==> {
                &&& m@.message_id == server_message_id()
                &&& m@.sender_id == self@.sender_id
                &&& m@.room_id == self@.room_id
                &&& m@.content == self@.content
            },
    {
        self.into_message_with_clock_reading(seconds_since_epoch())
    }

    /// Turns the message into a chat message with the identifier `1234`,
    /// stamped with a reading of the clock in seconds since the Unix epoch;
    /// fails, as `into_message` does, when the reading is an error.
    pub fn into_message_with_clock_reading(self, since_epoch: Result<u64, ()>) -> (r: Result<
        Message,
        (),
    >)
        ensures
            match since_epoch {
                Ok(t) => r matches Ok(m) && m@ == server_chat_message(self@, t),
                Err(_) => r is Err,
            },
    {
        let id = String::from_str("1234");
        proof {
            reveal_strlit("1234");
            assert(id@ =~= server_message_id());
        }
        Message::with_clock_reading(id, self.sender_id, self.room_id, self.content, since_epoch)
    }
}

} // verus!
