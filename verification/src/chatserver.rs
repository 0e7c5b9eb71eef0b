use crate::chatroom::delivery_line;
use crate::clock::seconds_since_epoch;
use crate::chatroom::users_view;
use crate::chatroom::ChatRoom;
use crate::chatroom::ChatRoomView;
use crate::message::Message;
use crate::message::MessageView;
use crate::message::server_chat_message;
use crate::message::ServerMessage;
use crate::message::server_message_id;
use crate::servers::messages::MessageServer;
use crate::servers::messages::MessageServerView;
use crate::utils::address::SocketAddress;
use tokio::sync::mpsc::Sender;
use crate::string_map::StringMap;
use crate::user::User;
use crate::utils::address::addr;
use crate::utils::sync::unbounded_channel;
use crate::utils::sync::Rx;
use crate::utils::sync::Tx;
use vstd::prelude::*;

verus! {

/// The views of a list of messages.
pub open spec fn messages_view(messages: Seq<Message>) -> Seq<MessageView> {
    messages.map_values(|m: Message| m@)
}

/// The messages of a room in a history, oldest first; none when the room has
/// no history yet.
pub open spec fn room_history(h: Map<Seq<char>, Seq<MessageView>>, room_id: Seq<char>) -> Seq<
    MessageView,
> {
    if h.contains_key(room_id) {
        h[room_id]
    } else {
        Seq::empty()
    }
}

/// The history after a message has been stored: appended to the history of
/// its room.
pub open spec fn with_message(h: Map<Seq<char>, Seq<MessageView>>, m: MessageView) -> Map<
    Seq<char>,
    Seq<MessageView>,
> {
    h.insert(m.room_id, room_history(h, m.room_id).push(m))
}

/// The views of the rooms of a map.
pub open spec fn rooms_view(m: Map<Seq<char>, ChatRoom>) -> Map<Seq<char>, ChatRoomView> {
    m.map_values(|r: ChatRoom| r@)
}

/// The chat rooms of a server, by room identifier.
pub struct ChatRoomsDatabase {
    chat_rooms: StringMap<ChatRoom>,
}

impl View for ChatRoomsDatabase {
    type V = Map<Seq<char>, ChatRoomView>;

    closed spec fn view(&self) -> Map<Seq<char>, ChatRoomView> {
        rooms_view(self.chat_rooms@)
    }
}

impl ChatRoomsDatabase {
    /// No room identifier is held twice.
    pub closed spec fn wf(self) -> bool {
        self.chat_rooms.wf()
    }

    pub fn new() -> (db: Self)
        ensures
            db@ == Map::<Seq<char>, ChatRoomView>::empty(),
            db.wf(),
    {
        let db = Self { chat_rooms: StringMap::new() };
        assert(db@ =~= Map::<Seq<char>, ChatRoomView>::empty());
        db
    }

    /// The room with the identifier, to work on in place, if there is one.
    /// What the caller leaves there becomes the room.
    pub fn find_room_by_id(&mut self, id: String) -> (r: Option<&mut ChatRoom>)
        ensures
            match r {
                Some(room) => {
                    &&& old(self)@.contains_key(id@)
                    &&& (*room)@ == old(self)@[id@]
                    &&& final(self)@ == old(self)@.insert(id@, (*final(room))@)
                },
                None => {
                    &&& !old(self)@.contains_key(id@)
                    &&& final(self)@ == old(self)@
                },
            },
            old(self).wf() ==> final(self).wf(),
    {
        proof {
            let m = self.chat_rooms@;
            assert forall|w: ChatRoom| #[trigger]
                rooms_view(m.insert(id@, w)) == self@.insert(id@, w@) by {
                assert(rooms_view(m.insert(id@, w)) =~= self@.insert(id@, w@));
            }
        }
        self.chat_rooms.get_mut(&id)
    }

    /// Adds a room under its own identifier, in place of any room that had it.
    pub fn add_chat_room(&mut self, room: ChatRoom)
        ensures
            final(self)@ == old(self)@.insert(room@.room_id, room@),
            old(self).wf() ==> final(self).wf(),
    {
        let id = room.get_room_id();
        let ghost rv = room@;
        self.chat_rooms.insert(id, room);
        proof {
            assert(self@ =~= old(self)@.insert(rv.room_id, rv));
        }
    }
}

/// The messages of a server, by room identifier, each room's oldest first.
pub struct MessagesDatabase {
    messages: StringMap<Vec<Message>>,
}

impl View for MessagesDatabase {
    type V = Map<Seq<char>, Seq<MessageView>>;

    closed spec fn view(&self) -> Map<Seq<char>, Seq<MessageView>> {
        self.messages@.map_values(|v: Vec<Message>| messages_view(v@))
    }
}

impl MessagesDatabase {
    /// No room identifier is held twice.
    pub closed spec fn wf(self) -> bool {
        self.messages.wf()
    }

    pub fn new() -> (db: Self)
        ensures
            db@ == Map::<Seq<char>, Seq<MessageView>>::empty(),
            db.wf(),
    {
        let db = Self { messages: StringMap::new() };
        assert(db@ =~= Map::<Seq<char>, Seq<MessageView>>::empty());
        db
    }

    /// Appends the message to the history of its room.
    pub fn store_message(&mut self, message: Message)
        ensures
            final(self)@ == with_message(old(self)@, message@),
            old(self).wf() ==> final(self).wf(),
    {
        let ghost mv = message@;
        let room_id = message.get_room_id();
        match self.messages.get_mut(&room_id) {
            Some(room_messages) => {
                let ghost before = room_messages@;
                room_messages.push(message);
                proof {
                    assert(messages_view(before.push(message)) =~= messages_view(before).push(
                        mv,
                    ));
                }
            },
            None => {
                let v = vec![message];
                proof {
                    assert(messages_view(v@) =~= Seq::<MessageView>::empty().push(mv));
                }
                self.messages.insert(room_id, v);
            },
        }
        proof {
            assert(self@ =~= with_message(old(self)@, mv));
        }
    }

    /// The messages of the room, oldest first, if the room has any.
    pub fn get_room_messages(&self, room_id: String) -> (r: Option<&Vec<Message>>)
        ensures
            match r {
                Some(v) => self@.contains_key(room_id@) && messages_view(v@) == self@[room_id@],
                None => !self@.contains_key(room_id@),
            },
    {
        self.messages.get(&room_id)
    }
}

/// Makes the two channels between a chat server and its message server:
/// the message server's sending half towards the chat server, the message
/// server's receiving half from the chat server, the chat server's sending
/// half towards the message server, and the chat server's receiving half
/// from the message server.
fn create_message_channels() -> (r: (Tx<ServerMessage>, Rx<Message>, Tx<Message>, Rx<ServerMessage>)) {
    let ms_to_cs = unbounded_channel::<ServerMessage>();
    let cs_to_ms = unbounded_channel::<Message>();
    (ms_to_cs.0, cs_to_ms.1, cs_to_ms.0, ms_to_cs.1)
}

/// What a chat server is, as the contracts see it: its identifier, its rooms,
/// the history of the messages sent in them, and its own message server, until
/// that is taken out to be run.
pub struct ChatServerView {
    pub id: Seq<char>,
    pub rooms: Map<Seq<char>, ChatRoomView>,
    pub history: Map<Seq<char>, Seq<MessageView>>,
    pub message_server: Option<MessageServerView>,
}

/// What a delivered message asks of the caller: the line that announces it
/// in its room, to print, and the message to hand to the load balancer's
/// channel.
pub struct Delivery {
    pub line: String,
    pub to_loadbalancer: Message,
}

/// The message server that every chat server makes for itself: identifier
/// `1234`, listening on `0.0.0.0:8000`, with no user connected.
pub open spec fn own_message_server() -> MessageServerView {
    MessageServerView {
        id: server_message_id(),
        addr: SocketAddress::V4 { ip: [0u8, 0u8, 0u8, 0u8], port: 8000 },
        connections: Map::<Seq<char>, Sender<Message>>::empty(),
    }
}

/// A chat server: rooms, their message history, the message server through
/// which users reach it, and the channel to the load balancer.
pub struct ChatServer {
    id: String,
    chat_rooms_db: ChatRoomsDatabase,
    messages_db: MessagesDatabase,
    message_server: Option<MessageServer>,
    message_server_channel: (Tx<Message>, Rx<ServerMessage>),
    loadbalancer_channel: (Tx<Message>, Rx<Message>),
}

impl View for ChatServer {
    type V = ChatServerView;

    closed spec fn view(&self) -> ChatServerView {
        ChatServerView {
            id: self.id@,
            rooms: self.chat_rooms_db@,
            history: self.messages_db@,
            message_server: match self.message_server {
                Some(ms) => Some(ms@),
                None => None,
            },
        }
    }
}

impl ChatServer {
    /// Its rooms and its history each hold every room identifier once.
    pub closed spec fn wf(self) -> bool {
        self.chat_rooms_db.wf() && self.messages_db.wf()
    }

    /// The channel to the load balancer that the server was made with.
    pub closed spec fn loadbalancer(self) -> (Tx<Message>, Rx<Message>) {
        self.loadbalancer_channel
    }

    /// The receiving half of the channel from the message server.
    pub closed spec fn server_receiver(self) -> Rx<ServerMessage> {
        self.message_server_channel.1
    }

    /// Makes a server with the given rooms and history. It makes the channels
    /// to a message server of its own, with identifier `1234`, listening on
    /// `0.0.0.0:8000`.
    pub fn new(
        id: String,
        chat_rooms_db: ChatRoomsDatabase,
        messages_db: MessagesDatabase,
        loadbalancer_channel: (Tx<Message>, Rx<Message>),
    ) -> (s: Self)
        ensures
            s@ == (ChatServerView {
                id: id@,
                rooms: chat_rooms_db@,
                history: messages_db@,
                message_server: Some(own_message_server()),
            }),
            s.loadbalancer() == loadbalancer_channel,
            chat_rooms_db.wf() && messages_db.wf() ==> s.wf(),
    {
        let (_ms_cs_tx, _cs_ms_rx, cs_ms_tx, ms_cs_rx) = create_message_channels();
        let server_id = String::from_str("1234");
        proof {
            reveal_strlit("1234");
            assert(server_id@ =~= server_message_id());
        }
        let message_server = MessageServer::new(server_id, addr([0, 0, 0, 0], 8000));
        Self {
            id,
            chat_rooms_db,
            messages_db,
            message_server: Some(message_server),
            message_server_channel: (cs_ms_tx, ms_cs_rx),
            loadbalancer_channel,
        }
    }

    pub fn get_server_id(&self) -> (r: String)
        ensures
            r@ == self@.id,
    {
        self.id.clone()
    }

    /// Takes the message server out, to be run; it is no longer held here.
    pub fn take_message_server(&mut self) -> (r: Option<MessageServer>)
        ensures
            match r {
                Some(ms) => old(self)@.message_server == Some(ms@),
                None => old(self)@.message_server is None,
            },
            final(self)@ == (ChatServerView { message_server: None, ..old(self)@ }),
            final(self).loadbalancer() == old(self).loadbalancer(),
            final(self).server_receiver() == old(self).server_receiver(),
            old(self).wf() ==> final(self).wf(),
    {
        self.message_server.take()
    }

    /// The sending half of the channel to the load balancer.
    pub fn loadbalancer_sender(&self) -> (r: &Tx<Message>)
        ensures
            *r == self.loadbalancer().0,
    {
        &self.loadbalancer_channel.0
    }

    /// The receiving half of the channel on which the message server hands
    /// over what its users send.
    pub fn message_server_receiver(&mut self) -> (r: &mut Rx<ServerMessage>)
        ensures
            *r == old(self).server_receiver(),
            final(self).server_receiver() == *final(r),
            final(self)@ == old(self)@,
            final(self).loadbalancer() == old(self).loadbalancer(),
            old(self).wf() ==> final(self).wf(),
    {
        &mut self.message_server_channel.1
    }

    /// Sends a message to its room: when the room exists, the message is
    /// appended to the room's history, and handed back, with the line that
    /// announces it in the room, for the caller to forward to the load
    /// balancer's channel and to print. Fails, changing nothing and handing
    /// nothing on, when there is no such room.
    pub fn send_message(&mut self, message: Message) -> (r: Result<Delivery, ()>)
        ensures
            match r {
                Ok(d) => {
                    &&& old(self)@.rooms.contains_key(message@.room_id)
                    &&& d.line@ == delivery_line(message@)
                    &&& d.to_loadbalancer@ == message@
                    &&& final(self)@ == (ChatServerView {
                        history: with_message(old(self)@.history, message@),
                        ..old(self)@
                    })
                },
                Err(_) => {
                    &&& !old(self)@.rooms.contains_key(message@.room_id)
                    &&& final(self)@ == old(self)@
                },
            },
            final(self).loadbalancer() == old(self).loadbalancer(),
            final(self).server_receiver() == old(self).server_receiver(),
            old(self).wf() ==> final(self).wf(),
    {
        let room_id = message.get_room_id();
        let ghost rooms = self.chat_rooms_db@;
        match self.chat_rooms_db.find_room_by_id(room_id) {
            Some(room) => {
                let to_loadbalancer = message.clone();
                let line = room.send_message(message.clone());
                proof {
                    assert(rooms.insert(message@.room_id, rooms[message@.room_id]) =~= rooms);
                }
                self.store_message_in_history(message);
                Ok(Delivery { line, to_loadbalancer })
            },
            None => Err(()),
        }
    }

    /// Delivers a message that the message server handed over: it becomes a
    /// chat message with identifier `1234`, stamped with the current time,
    /// and is sent as `send_message` does. Fails, changing nothing and handing
    /// nothing on, when the system clock stands before the Unix epoch or the
    /// room does not exist.
    pub fn process_server_message(&mut self, msg: ServerMessage) -> (r: Result<Delivery, ()>)
        ensures
            match r {
                Ok(d) => exists|t: u64|
                    {
                        &&& old(self)@.rooms.contains_key(msg@.room_id)
                        &&& d.line@ == delivery_line(#[trigger] server_chat_message(msg@, t))
                        &&& d.to_loadbalancer@ == server_chat_message(msg@, t)
                        &&& final(self)@ == (ChatServerView {
                            history: with_message(old(self)@.history, server_chat_message(msg@, t)),
                            ..old(self)@
                        })
                    },
                Err(_) => final(self)@ == old(self)@,
            },
            !old(self)@.rooms.contains_key(msg@.room_id) ==> r is Err,
            final(self).loadbalancer() == old(self).loadbalancer(),
            final(self).server_receiver() == old(self).server_receiver(),
            old(self).wf() ==> final(self).wf(),
    {
        self.process_server_message_with_clock_reading(msg, seconds_since_epoch())
    }

    /// Delivers a message that the message server handed over, stamped with a
    /// reading of the clock in seconds since the Unix epoch: it becomes a chat
    /// message with identifier `1234` and is sent as `send_message` does.
    /// Fails, changing nothing and handing nothing on, when the reading is an
    /// error or the room does not exist.
    pub fn process_server_message_with_clock_reading(
        &mut self,
        msg: ServerMessage,
        since_epoch: Result<u64, ()>,
    ) -> (r: Result<Delivery, ()>)
        ensures
            match since_epoch {
                Ok(t) => if old(self)@.rooms.contains_key(msg@.room_id) {
                    &&& r matches Ok(d) && d.line@ == delivery_line(server_chat_message(msg@, t))
                        && d.to_loadbalancer@ == server_chat_message(msg@, t)
                    &&& final(self)@ == (ChatServerView {
                        history: with_message(old(self)@.history, server_chat_message(msg@, t)),
                        ..old(self)@
                    })
                } else {
                    &&& r is Err
                    &&& final(self)@ == old(self)@
                },
                Err(_) => r is Err && final(self)@ == old(self)@,
            },
            final(self).loadbalancer() == old(self).loadbalancer(),
            final(self).server_receiver() == old(self).server_receiver(),
            old(self).wf() ==> final(self).wf(),
    {
        match msg.into_message_with_clock_reading(since_epoch) {
            Ok(message) => self.send_message(message),
            Err(_) => Err(()),
        }
    }

    /// Adds the user at the end of the participants of the room. Fails,
    /// changing nothing, when there is no such room.
    pub fn add_user_to_room(&mut self, user: User, room_id: String) -> (r: Result<(), ()>)
        ensures
            match r {
                Ok(_) => {
                    &&& old(self)@.rooms.contains_key(room_id@)
                    &&& final(self)@ == (ChatServerView {
                        id: old(self)@.id,
                        rooms: old(self)@.rooms.insert(
                            room_id@,
                            ChatRoomView {
                                room_id: old(self)@.rooms[room_id@].room_id,
                                participants: old(self)@.rooms[room_id@].participants.push(user@),
                            },
                        ),
                        history: old(self)@.history,
                        message_server: old(self)@.message_server,
                    })
                },
                Err(_) => {
                    &&& !old(self)@.rooms.contains_key(room_id@)
                    &&& final(self)@ == old(self)@
                },
            },
            final(self).loadbalancer() == old(self).loadbalancer(),
            old(self).wf() ==> final(self).wf(),
    {
        match self.chat_rooms_db.find_room_by_id(room_id) {
            Some(room) => {
                room.add_participant(user);
                Ok(())
            },
            None => Err(()),
        }
    }

    /// The messages sent to the room, oldest first, if any were.
    pub fn get_room_messages(&mut self, room_id: String) -> (r: Option<&Vec<Message>>)
        ensures
            match r {
                Some(v) => old(self)@.history.contains_key(room_id@) && messages_view(v@)
                    == old(self)@.history[room_id@],
                None => !old(self)@.history.contains_key(room_id@),
            },
            final(self)@ == old(self)@,
            final(self).loadbalancer() == old(self).loadbalancer(),
            old(self).wf() ==> final(self).wf(),
    {
        self.messages_db.get_room_messages(room_id)
    }

    /// The participants of the room, in the order in which they joined, if
    /// the room exists.
    pub fn get_room_participants(&mut self, room_id: String) -> (r: Option<&Vec<User>>)
        ensures
            match r {
                Some(v) => old(self)@.rooms.contains_key(room_id@) && users_view(v@)
                    == old(self)@.rooms[room_id@].participants,
                None => !old(self)@.rooms.contains_key(room_id@),
            },
            final(self)@ == old(self)@,
            final(self).loadbalancer() == old(self).loadbalancer(),
            old(self).wf() ==> final(self).wf(),
    {
        let ghost rooms = self.chat_rooms_db@;
        let ghost rid = room_id@;
        if let Some(room) = self.chat_rooms_db.find_room_by_id(room_id) {
            let p = room.get_participants();
            proof {
                assert(rooms.insert(rid, rooms[rid]) =~= rooms);
            }
            Some(p)
        } else {
            None
        }
    }

    fn store_message_in_history(&mut self, message: Message)
        ensures
            final(self)@ == (ChatServerView {
                id: old(self)@.id,
                rooms: old(self)@.rooms,
                history: with_message(old(self)@.history, message@),
                message_server: old(self)@.message_server,
            }),
            final(self).loadbalancer() == old(self).loadbalancer(),
            final(self).server_receiver() == old(self).server_receiver(),
            old(self).wf() ==> final(self).wf(),
    {
        self.messages_db.store_message(message);
    }
}

/// Storing a message appends it to the history of its room and leaves the
/// history of every other room as it was; so each room's history only grows,
/// and the earlier messages keep their places.
pub proof fn lemma_store_appends(h: Map<Seq<char>, Seq<MessageView>>, m: MessageView, other: Seq<char>)
    ensures
        room_history(with_message(h, m), m.room_id) == room_history(h, m.room_id).push(m),
        other != m.room_id ==> room_history(with_message(h, m), other) == room_history(h, other),
        room_history(h, other).is_prefix_of(room_history(with_message(h, m), other)),
{
    let before = room_history(h, other);
    let after = room_history(with_message(h, m), other);
    if other == m.room_id {
        assert(after == before.push(m));
        assert forall|i: int| 0 <= i < before.len() implies before[i] == after[i] by {}
    } else {
        assert(after == before);
    }
}

/// A user who has been added to a room is its latest participant, and the
/// participants who were there before keep their places.
pub proof fn lemma_join_makes_participant(rooms: Map<Seq<char>, ChatRoomView>, room_id: Seq<char>, user: crate::user::UserView)
    requires
        rooms.contains_key(room_id),
    ensures
        ({
            let after = rooms.insert(
                room_id,
                ChatRoomView {
                    room_id: rooms[room_id].room_id,
                    participants: rooms[room_id].participants.push(user),
                },
            );
            &&& after[room_id].participants.last() == user
            &&& after[room_id].participants.drop_last() == rooms[room_id].participants
            &&& after.dom() == rooms.dom()
        }),
{
    let after = rooms.insert(
        room_id,
        ChatRoomView {
            room_id: rooms[room_id].room_id,
            participants: rooms[room_id].participants.push(user),
        },
    );
    assert(after[room_id].participants.drop_last() =~= rooms[room_id].participants);
    assert(after.dom() =~= rooms.dom());
}

} // verus!
