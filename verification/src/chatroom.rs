use crate::message::Message;
use crate::message::MessageView;
use crate::user::User;
use crate::user::UserView;
use vstd::prelude::*;

verus! {

/// What a chat room is, as the contracts see it: its identifier and its
/// participants in the order in which they joined.
pub struct ChatRoomView {
    pub room_id: Seq<char>,
    pub participants: Seq<UserView>,
}

/// The views of a list of users.
pub open spec fn users_view(users: Seq<User>) -> Seq<UserView> {
    users.map_values(|u: User| u@)
}

/// The participant list after the first participant whose identifier is `id`
/// has left; unchanged when there is none.
pub open spec fn without_first_user(users: Seq<UserView>, id: Seq<char>) -> Seq<UserView> {
    if exists|k: int| 0 <= k < users.len() && users[k].user_id == id {
        let k = choose|k: int|
            0 <= k < users.len() && users[k].user_id == id && forall|j: int|
                0 <= j < k ==> users[j].user_id != id;
        users.remove(k)
    } else {
        users
    }
}

/// The line that announces a message in its room:
/// a newline, the room, a space, the sender, a tab, `> `, the content and a newline.
pub open spec fn delivery_line(m: MessageView) -> Seq<char> {
    seq!['\n'] + m.room_id + seq![' '] + m.sender_id + seq!['\t', '>', ' '] + m.content + seq!['\n']
}

/// A chat room: an identifier and the users taking part in it.
pub struct ChatRoom {
    room_id: String,
    participants: Vec<User>,
}

impl View for ChatRoom {
    type V = ChatRoomView;

    closed spec fn view(&self) -> ChatRoomView {
        ChatRoomView { room_id: self.room_id@, participants: users_view(self.participants@) }
    }
}

impl Clone for ChatRoom {
    fn clone(&self) -> (res: Self)
        ensures
            res@ == self@,
    {
        let participants = self.participants.clone();
        proof {
            assert forall|i: int| 0 <= i < participants.len() implies participants@[i]@
                == self.participants@[i]@ by {
                assert(cloned::<User>(self.participants[i], participants[i]));
            }
            assert(users_view(participants@) =~= users_view(self.participants@));
        }
        ChatRoom { room_id: self.room_id.clone(), participants }
    }
}

/// Leaving takes out the participant at the first position that holds the
/// identifier.
pub proof fn lemma_first_position(users: Seq<UserView>, id: Seq<char>, k: int)
    requires
        0 <= k < users.len(),
        users[k].user_id == id,
        forall|j: int| 0 <= j < k ==> users[j].user_id != id,
    ensures
        without_first_user(users, id) == users.remove(k),
{
    let c = choose|c: int|
        0 <= c < users.len() && users[c].user_id == id && forall|j: int|
            0 <= j < c ==> users[j].user_id != id;
    assert(0 <= c < users.len() && users[c].user_id == id && forall|j: int|
        0 <= j < c ==> users[j].user_id != id);
    if c < k {
        assert(users[c].user_id != id);
    }
    if k < c {
        assert(users[k].user_id != id);
    }
}

impl ChatRoom {
    pub fn new(room_id: String) -> (r: Self)
        ensures
            r@ == (ChatRoomView { room_id: room_id@, participants: Seq::empty() }),
    {
        let r = Self { room_id, participants: Vec::new() };
        proof {
            assert(users_view(r.participants@) =~= Seq::<UserView>::empty());
        }
        r
    }

    pub fn get_room_id(&self) -> (r: String)
        ensures
            r@ == self@.room_id,
    {
        self.room_id.clone()
    }

    /// Adds a user at the end of the participant list.
    pub fn add_participant(&mut self, user: User)
        ensures
            final(self)@ == (ChatRoomView {
                room_id: old(self)@.room_id,
                participants: old(self)@.participants.push(user@),
            }),
    {
        self.participants.push(user);
        proof {
            assert(users_view(self.participants@) =~= users_view(old(self).participants@).push(
                user@,
            ));
        }
    }

    pub fn get_participants(&mut self) -> (r: &Vec<User>)
        ensures
            users_view(r@) == old(self)@.participants,
            final(self)@ == old(self)@,
    {
        &self.participants
    }

    /// Takes the first participant with the same identifier as `user` out of
    /// the room; the room is unchanged when there is none.
    pub fn remove_participant(&mut self, user: User)
        ensures
            final(self)@ == (ChatRoomView {
                room_id: old(self)@.room_id,
                participants: without_first_user(old(self)@.participants, user@.user_id),
            }),
    {
        let id = user.get_user_id();
        let n = self.participants.len();
        let mut i: usize = 0;
        while i < n
            invariant
                n == self.participants.len(),
                i <= n,
                self.participants@ == old(self).participants@,
                self.room_id@ == old(self).room_id@,
                id@ == user@.user_id,
                forall|j: int| 0 <= j < i ==> self.participants@[j]@.user_id != id@,
            decreases n - i,
        {
            if self.participants[i].get_user_id() == id {
                let ghost before = self.participants@;
                self.participants.remove(i);
                proof {
                    let users = users_view(before);
                    assert(users[i as int].user_id == id@);
                    lemma_first_position(users, id@, i as int);
                    assert(users_view(self.participants@) =~= users.remove(i as int));
                }
                return;
            }
            i = i + 1;
        }
        proof {
            let users = users_view(self.participants@);
            assert(!exists|k: int| 0 <= k < users.len() && users[k].user_id == id@);
        }
    }

    /// The line that announces the message in this room, for the caller to
    /// print; the room itself is unchanged.
    pub fn send_message(&mut self, message: Message) -> (line: String)
        ensures
            line@ == delivery_line(message@),
            line@.len() == (message@.room_id.len() as int) + (message@.sender_id.len() as int)
                + (message@.content.len() as int) + 6,
            line@[0] == '\n',
            line@.subrange(1, 1 + (message@.room_id.len() as int)) == message@.room_id,
            line@[1 + (message@.room_id.len() as int)] == ' ',
            line@.subrange(
                2 + (message@.room_id.len() as int),
                2 + (message@.room_id.len() as int) + (message@.sender_id.len() as int),
            ) == message@.sender_id,
            line@.subrange(
                2 + (message@.room_id.len() as int) + (message@.sender_id.len() as int),
                5 + (message@.room_id.len() as int) + (message@.sender_id.len() as int),
            ) == seq!['\t', '>', ' '],
            line@.subrange((line@.len() as int) - 1 - (message@.content.len() as int), (line@.len() as int) - 1)
                == message@.content,
            line@.last() == '\n',
            final(self)@ == old(self)@,
    {
        let room = message.get_room_id();
        let sender = message.get_sender_id();
        let content = message.get_content();
        let mut line = String::from_str("\n");
        line.append(room.as_str());
        line.append(" ");
        line.append(sender.as_str());
        line.append("\t> ");
        line.append(content.as_str());
        line.append("\n");
        proof {
            reveal_strlit("\n");
            reveal_strlit(" ");
            reveal_strlit("\t> ");
            assert(line@ =~= delivery_line(message@));
            lemma_delivery_line_layout(message@);
        }
        line
    }
}

/// A user who joins a room, and whose identifier no participant had, leaves
/// it as it was by leaving.
pub proof fn lemma_leave_undoes_join(participants: Seq<UserView>, user: UserView)
    requires
        forall|j: int| 0 <= j < participants.len() ==> participants[j].user_id != user.user_id,
    ensures
        without_first_user(participants.push(user), user.user_id) == participants,
{
    let after = participants.push(user);
    let k = participants.len() as int;
    assert forall|j: int| 0 <= j < k implies after[j].user_id != user.user_id by {
        assert(after[j] == participants[j]);
    }
    lemma_first_position(after, user.user_id, k);
    assert(after.remove(k) =~= participants);
}

/// Leaving takes out exactly one participant when one has the identifier, and
/// keeps the others in their order.
pub proof fn lemma_leave_removes_one(participants: Seq<UserView>, id: Seq<char>)
    ensures
        (exists|k: int| 0 <= k < participants.len() && participants[k].user_id == id) ==> without_first_user(
            participants,
            id,
        ).len() == participants.len() - 1,
        !(exists|k: int| 0 <= k < participants.len() && participants[k].user_id == id) ==> without_first_user(
            participants,
            id,
        ) == participants,
{
    if exists|k: int| 0 <= k < participants.len() && participants[k].user_id == id {
        lemma_first_exists(participants, id);
    }
}

/// When some participant has the identifier, a first one has it.
#[verifier::rlimit(30)]
proof fn lemma_first_exists(participants: Seq<UserView>, id: Seq<char>)
    requires
        exists|k: int| 0 <= k < participants.len() && participants[k].user_id == id,
    ensures
        exists|k: int|
            0 <= k < participants.len() && participants[k].user_id == id && forall|j: int|
                0 <= j < k ==> participants[j].user_id != id,
    decreases participants.len(),
{
    if participants[0].user_id != id {
        let rest = participants.skip(1);
        let k = choose|k: int| 0 <= k < participants.len() && participants[k].user_id == id;
        assert(rest[k - 1].user_id == id);
        lemma_first_exists(rest, id);
        let c = choose|c: int|
            0 <= c < rest.len() && rest[c].user_id == id && forall|j: int|
                0 <= j < c ==> rest[j].user_id != id;
        assert forall|j: int| 0 <= j < c + 1 implies participants[j].user_id != id by {
            if j > 0 {
                assert(participants[j] == rest[j - 1]);
            }
        }
        assert(participants[c + 1] == rest[c]);
    } else {
        assert(forall|j: int| 0 <= j < 0 ==> participants[j].user_id != id);
    }
}

/// The line that announces a message holds, in order and in full: a newline,
/// the room, a space, the sender, a tab, `> `, the whole content and a final
/// newline; nothing is cut and nothing else is added.
pub proof fn lemma_delivery_line_layout(m: MessageView)
    ensures
        ({
            let line = delivery_line(m);
            let r = m.room_id.len() as int;
            let s = m.sender_id.len() as int;
            let c = m.content.len() as int;
            &&& line.len() == r + s + c + 6
            &&& line[0] == '\n'
            &&& line.subrange(1, 1 + r) == m.room_id
            &&& line[1 + r] == ' '
            &&& line.subrange(2 + r, 2 + r + s) == m.sender_id
            &&& line.subrange(2 + r + s, 5 + r + s) == seq!['\t', '>', ' ']
            &&& line.subrange(5 + r + s, 5 + r + s + c) == m.content
            &&& line.subrange(line.len() - 1 - c, line.len() - 1) == m.content
            &&& line.last() == '\n'
        }),
{
    let line = delivery_line(m);
    let r = m.room_id.len() as int;
    let s = m.sender_id.len() as int;
    let c = m.content.len() as int;
    assert(line.subrange(1, 1 + r) =~= m.room_id);
    assert(line.subrange(2 + r, 2 + r + s) =~= m.sender_id);
    assert(line.subrange(2 + r + s, 5 + r + s) =~= seq!['\t', '>', ' ']);
    assert(line.subrange(5 + r + s, 5 + r + s + c) =~= m.content);
    assert(line.subrange(line.len() - 1 - c, line.len() - 1) =~= m.content);
}

} // verus!
