use crate::string_map::StringMap;
use crate::utils::address::addr;
use crate::utils::address::SocketAddress;
use vstd::prelude::*;

verus! {

/// The answer to a request that sets a user's server: its status text.
pub open spec fn set_reply_text(ok: bool) -> Seq<char> {
    if ok {
        seq!['D', 'o', 'n', 'e']
    } else {
        seq![
            'A', 'd', 'd', 'r', 'e', 's', 's', ' ', 'n', 'o', 't', ' ', 'v', 'a', 'l', 'i', 'd'
        ]
    }
}

/// The users that a user-mapping server knows from the start, each with the
/// address of its message server.
pub open spec fn initial_user_map() -> Map<Seq<char>, SocketAddress> {
    Map::<Seq<char>, SocketAddress>::empty().insert(
        seq!['1', '2', '3', '4'],
        SocketAddress::V4 { ip: [0u8, 1u8, 2u8, 3u8], port: 1234 },
    ).insert(
        seq!['1', '2', '6', '7'],
        SocketAddress::V4 { ip: [0u8, 1u8, 2u8, 4u8], port: 1267 },
    ).insert(
        seq!['4', '5', '9', '0'],
        SocketAddress::V4 { ip: [0u8, 1u8, 2u8, 5u8], port: 4590 },
    ).insert(seq!['2', '8', '4', '6'], SocketAddress::V4 { ip: [0u8, 1u8, 2u8, 6u8], port: 2846 })
}

/// Which message server each user is connected to, by user identifier.
pub struct UserServerTable {
    users: StringMap<SocketAddress>,
}

impl View for UserServerTable {
    type V = Map<Seq<char>, SocketAddress>;

    closed spec fn view(&self) -> Map<Seq<char>, SocketAddress> {
        self.users@
    }
}

impl UserServerTable {
    /// No user identifier is held twice.
    pub closed spec fn wf(self) -> bool {
        self.users.wf()
    }

    pub fn new() -> (t: Self)
        ensures
            t@ == Map::<Seq<char>, SocketAddress>::empty(),
            t.wf(),
    {
        Self { users: StringMap::new() }
    }

    /// The table that a user-mapping server starts with.
    pub fn initial() -> (t: Self)
        ensures
            t@ == initial_user_map(),
            t.wf(),
    {
        let mut t = Self::new();
        let k1 = String::from_str("1234");
        let k2 = String::from_str("1267");
        let k3 = String::from_str("4590");
        let k4 = String::from_str("2846");
        proof {
            reveal_strlit("1234");
            reveal_strlit("1267");
            reveal_strlit("4590");
            reveal_strlit("2846");
            assert(k1@ =~= seq!['1', '2', '3', '4']);
            assert(k2@ =~= seq!['1', '2', '6', '7']);
            assert(k3@ =~= seq!['4', '5', '9', '0']);
            assert(k4@ =~= seq!['2', '8', '4', '6']);
        }
        t.users.insert(k1, addr([0, 1, 2, 3], 1234));
        t.users.insert(k2, addr([0, 1, 2, 4], 1267));
        t.users.insert(k3, addr([0, 1, 2, 5], 4590));
        t.users.insert(k4, addr([0, 1, 2, 6], 2846));
        proof {
            assert(t@ =~= initial_user_map());
        }
        t
    }

    /// The address of the message server of the user, if the user is known.
    pub fn get_user_server_addr(&self, id: &String) -> (r: Option<SocketAddress>)
        ensures
            match r {
                Some(a) => self@.contains_key(id@) && a == self@[id@],
                None => !self@.contains_key(id@),
            },
    {
        match self.users.get(id) {
            Some(a) => Some(*a),
            None => None,
        }
    }

    /// Records the message server of a user, given the address that was read
    /// from the request, or `None` when it could not be read. Answers `Done`
    /// when it was recorded, and `Address not valid`, changing nothing, when
    /// there was none.
    pub fn set_user_server_addr(&mut self, id: String, addr: Option<SocketAddress>) -> (r: Result<
        String,
        String,
    >)
        ensures
            match addr {
                Some(a) => {
                    &&& r matches Ok(text) && text@ == set_reply_text(true)
                    &&& final(self)@ == old(self)@.insert(id@, a)
                },
                None => {
                    &&& r matches Err(text) && text@ == set_reply_text(false)
                    &&& final(self)@ == old(self)@
                },
            },
            old(self).wf() ==> final(self).wf(),
    {
        match addr {
            Some(a) => {
                self.users.insert(id, a);
                let done = String::from_str("Done");
                proof {
                    reveal_strlit("Done");
                    assert(done@ =~= set_reply_text(true));
                }
                Ok(done)
            },
            None => {
                let refused = String::from_str("Address not valid");
                proof {
                    reveal_strlit("Address not valid");
                    assert(refused@ =~= set_reply_text(false));
                }
                Err(refused)
            },
        }
    }
}

/// What a user-mapping server is, as the contracts see it.
pub struct UserMappingServerView {
    pub id: Seq<char>,
    pub addr: SocketAddress,
}

/// A server that tells on which message server each user can be reached.
pub struct UserMappingServer {
    id: String,
    addr: SocketAddress,
}

impl View for UserMappingServer {
    type V = UserMappingServerView;

    closed spec fn view(&self) -> UserMappingServerView {
        UserMappingServerView { id: self.id@, addr: self.addr }
    }
}

impl UserMappingServer {
    pub fn new(id: String, addr: SocketAddress) -> (s: Self)
        ensures
            s@ == (UserMappingServerView { id: id@, addr: addr }),
    {
        Self { id, addr }
    }

    pub fn get_id(&self) -> (r: String)
        ensures
            r@ == self@.id,
    {
        self.id.clone()
    }

    pub fn get_addr(&self) -> (r: SocketAddress)
        ensures
            r == self@.addr,
    {
        self.addr
    }
}

} // verus!
