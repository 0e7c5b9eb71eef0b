use crate::chatserver::ChatServer;
use crate::message::Message;
use crate::servers::messages::SocketEvent;
use crate::string_map::StringMap;
use crate::utils::sync::Rx;
use crate::utils::sync::Tx;
use std::sync::Arc;
use vstd::prelude::*;

verus! {

/// The two halves of a channel of chat messages.
pub type MessageChannel = (Tx<Message>, Rx<Message>);

/// Spreads the work over chat servers: it knows each server and the channel
/// to it, by server identifier.
pub struct LoadBalancer<'a> {
    chat_servers: StringMap<&'a ChatServer>,
    chat_server_channels: StringMap<MessageChannel>,
    users_table: Arc<StringMap<String>>,
}

impl<'a> LoadBalancer<'a> {
    /// The servers that the balancer knows, by identifier.
    pub closed spec fn servers(self) -> Map<Seq<char>, &'a ChatServer> {
        self.chat_servers@
    }

    /// No server identifier is held twice.
    pub closed spec fn wf(self) -> bool {
        self.chat_servers.wf() && self.chat_server_channels.wf()
    }

    /// The identifier of the earliest registered server, when there is one.
    pub closed spec fn first_server_id(self) -> Seq<char> {
        self.chat_servers.first_key()
    }

    /// The channels to the servers, by server identifier.
    pub closed spec fn channels(self) -> Map<Seq<char>, MessageChannel> {
        self.chat_server_channels@
    }

    /// Which server each user is on, by user identifier.
    pub closed spec fn users(self) -> Map<Seq<char>, Seq<char>> {
        self.users_table@.map_values(|s: String| s@)
    }

    pub fn new() -> (lb: Self)
        ensures
            lb.servers() == Map::<Seq<char>, &'a ChatServer>::empty(),
            lb.channels() == Map::<Seq<char>, MessageChannel>::empty(),
            lb.users() == Map::<Seq<char>, Seq<char>>::empty(),
            lb.wf(),
    {
        let lb = Self {
            chat_servers: StringMap::new(),
            chat_server_channels: StringMap::new(),
            users_table: Arc::new(StringMap::new()),
        };
        assert(lb.users() =~= Map::<Seq<char>, Seq<char>>::empty());
        lb
    }

    /// Hands a message to a server. Nothing is sent yet: it always succeeds.
    fn send_to_server(server_id: String, message: Message) -> (r: Result<(), ()>)
        ensures
            r is Ok,
    {
        Ok(())
    }

    /// Registers a server and the channel to it under the server's
    /// identifier, in place of any server that had it.
    pub fn add_server(&mut self, server: &'a ChatServer, channel: MessageChannel)
        ensures
            final(self).servers() == old(self).servers().insert(server@.id, server),
            final(self).channels() == old(self).channels().insert(server@.id, channel),
            final(self).users() == old(self).users(),
            old(self).wf() ==> final(self).wf(),
    {
        self.chat_server_channels.insert(server.get_server_id(), channel);
        self.chat_servers.insert(server.get_server_id(), server);
    }

    /// One of the registered servers, the earliest registered one, if there is
    /// any. What the caller leaves in its place is registered under its key.
    pub fn get_server(&mut self) -> (r: Option<&mut &'a ChatServer>)
        ensures
            match r {
                Some(s) => {
                    &&& old(self).servers().contains_key(old(self).first_server_id())
                    &&& *s == old(self).servers()[old(self).first_server_id()]
                    &&& final(self).servers() == old(self).servers().insert(
                        old(self).first_server_id(),
                        *final(s),
                    )
                },
                None => old(self).servers().dom() == Set::<Seq<char>>::empty(),
            },
            final(self).channels() == old(self).channels(),
            final(self).users() == old(self).users(),
            old(self).wf() ==> final(self).wf(),
    {
        self.chat_servers.first_value_mut()
    }
}

/// What the load balancer's websocket does about what arrived: stop, send
/// a text back, or go on.
pub enum EchoAction {
    Stop,
    Echo(String),
    Skip,
}

/// Decides what the load balancer's websocket does: a text comes back as it
/// was, a close frame or the end of the stream stops it, anything else is
/// passed over.
pub fn echo_step(event: SocketEvent) -> (a: EchoAction)
    ensures
        match event {
            SocketEvent::Close => a is Stop,
            SocketEvent::Ended => a is Stop,
            SocketEvent::Text(msg) => a matches EchoAction::Echo(m) && m@ == msg@,
            SocketEvent::Error => a is Skip,
            SocketEvent::Other => a is Skip,
        },
{
    match event {
        SocketEvent::Close => EchoAction::Stop,
        SocketEvent::Ended => EchoAction::Stop,
        SocketEvent::Text(msg) => EchoAction::Echo(msg),
        SocketEvent::Error => EchoAction::Skip,
        SocketEvent::Other => EchoAction::Skip,
    }
}

} // verus!
