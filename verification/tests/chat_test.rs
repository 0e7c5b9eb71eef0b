use simple_chat::chatserver::ChatRoomsDatabase;
use simple_chat::chatserver::MessagesDatabase;
use simple_chat::message::ServerMessage;
use simple_chat::ChatRoom;
use simple_chat::ChatServer;
use simple_chat::LoadBalancer;
use simple_chat::Message;
use simple_chat::User;

fn s(text: &str) -> String {
    String::from(text)
}

fn user(id: &str) -> User {
    User::new(s(id), format!("name-{}", id), format!("secret-{}", id))
}

fn message(id: &str, sender: &str, room: &str, content: &str, at: u64) -> Message {
    Message::with_clock_reading(s(id), s(sender), s(room), s(content), Ok(at)).unwrap()
}

fn ids(users: &Vec<User>) -> Vec<String> {
    users.iter().map(|u| u.get_user_id()).collect()
}

fn server_with_room(room: &str) -> (ChatServer, tokio::sync::mpsc::UnboundedReceiver<Message>) {
    let mut rooms = ChatRoomsDatabase::new();
    rooms.add_chat_room(ChatRoom::new(s(room)));
    let (tx, rx) = tokio::sync::mpsc::unbounded_channel();
    let (_tx2, rx2) = tokio::sync::mpsc::unbounded_channel();
    let server = ChatServer::new(s("server-1"), rooms, MessagesDatabase::new(), (tx, rx2));
    (server, rx)
}

#[test]
fn user_keeps_its_fields() {
    let u = User::new(s("u1"), s("alice"), s("pw"));
    assert_eq!(u.get_user_id(), "u1");
    assert_eq!(u.get_username(), "alice");
    assert_eq!(u.get_password(), "pw");
    let c = u.clone();
    assert_eq!(c.get_user_id(), "u1");
}

#[test]
fn message_keeps_its_fields_and_stamp() {
    let m = message("m1", "alice", "lobby", "hello", 1700000000);
    assert_eq!(m.get_message_id(), "m1");
    assert_eq!(m.get_sender_id(), "alice");
    assert_eq!(m.get_room_id(), "lobby");
    assert_eq!(m.get_content(), "hello");
    assert_eq!(m.get_time_stamp(), 1700000000);
}

#[test]
fn message_fails_without_a_clock_reading() {
    let r = Message::with_clock_reading(s("m1"), s("a"), s("r"), s("c"), Err(()));
    assert!(r.is_err());
}

#[test]
fn message_new_reads_the_clock() {
    let m = Message::new(s("m1"), s("a"), s("r"), s("c")).unwrap();
    assert_eq!(m.get_message_id(), "m1");
    assert!(m.get_time_stamp() > 1_600_000_000);
}

#[test]
fn server_message_becomes_message_1234() {
    let sm = ServerMessage::new(s("bob"), s("lobby"), s("hi"));
    assert_eq!(sm.get_sender_id(), "bob");
    assert_eq!(sm.get_room_id(), "lobby");
    assert_eq!(sm.get_content(), "hi");
    let m = sm.into_message().unwrap();
    assert_eq!(m.get_message_id(), "1234");
    assert_eq!(m.get_sender_id(), "bob");
    assert_eq!(m.get_room_id(), "lobby");
    assert_eq!(m.get_content(), "hi");
}

#[test]
fn room_participants_join_in_order() {
    let mut room = ChatRoom::new(s("lobby"));
    assert_eq!(room.get_room_id(), "lobby");
    assert!(room.get_participants().is_empty());
    room.add_participant(user("a"));
    room.add_participant(user("b"));
    assert_eq!(ids(room.get_participants()), vec![s("a"), s("b")]);
}

#[test]
fn leaving_removes_only_the_first_match() {
    let mut room = ChatRoom::new(s("lobby"));
    room.add_participant(user("a"));
    room.add_participant(user("b"));
    room.add_participant(user("a"));
    room.remove_participant(user("a"));
    assert_eq!(ids(room.get_participants()), vec![s("b"), s("a")]);
    room.remove_participant(user("zzz"));
    assert_eq!(ids(room.get_participants()), vec![s("b"), s("a")]);
}

#[test]
fn leave_undoes_join() {
    let mut room = ChatRoom::new(s("lobby"));
    room.add_participant(user("a"));
    room.add_participant(user("b"));
    room.add_participant(user("c"));
    room.remove_participant(user("c"));
    assert_eq!(ids(room.get_participants()), vec![s("a"), s("b")]);
}

#[test]
fn room_announces_messages() {
    let mut room = ChatRoom::new(s("lobby"));
    let line = room.send_message(message("m", "alice", "lobby", "hello there", 5));
    assert_eq!(line, "\nlobby alice\t> hello there\n");
}

#[test]
fn cloned_room_keeps_everything() {
    let mut room = ChatRoom::new(s("lobby"));
    room.add_participant(user("a"));
    let mut c = room.clone();
    assert_eq!(c.get_room_id(), "lobby");
    assert_eq!(ids(c.get_participants()), vec![s("a")]);
}

#[test]
fn rooms_database_finds_rooms_by_id() {
    let mut db = ChatRoomsDatabase::new();
    assert!(db.find_room_by_id(s("lobby")).is_none());
    db.add_chat_room(ChatRoom::new(s("lobby")));
    db.add_chat_room(ChatRoom::new(s("games")));
    db.find_room_by_id(s("games")).unwrap().add_participant(user("g"));
    assert_eq!(ids(db.find_room_by_id(s("games")).unwrap().get_participants()), vec![s("g")]);
    assert!(db.find_room_by_id(s("lobby")).unwrap().get_participants().is_empty());
    db.add_chat_room(ChatRoom::new(s("games")));
    assert!(db.find_room_by_id(s("games")).unwrap().get_participants().is_empty());
}

#[test]
fn messages_database_keeps_history_per_room() {
    let mut db = MessagesDatabase::new();
    assert!(db.get_room_messages(s("lobby")).is_none());
    db.store_message(message("1", "a", "lobby", "one", 1));
    db.store_message(message("2", "b", "games", "two", 2));
    db.store_message(message("3", "c", "lobby", "three", 3));
    let lobby: Vec<String> =
        db.get_room_messages(s("lobby")).unwrap().iter().map(|m| m.get_content()).collect();
    assert_eq!(lobby, vec![s("one"), s("three")]);
    let games: Vec<String> =
        db.get_room_messages(s("games")).unwrap().iter().map(|m| m.get_content()).collect();
    assert_eq!(games, vec![s("two")]);
}

#[test]
fn chat_server_sends_to_existing_rooms_only() {
    let (mut server, mut lb_rx) = server_with_room("lobby");
    assert_eq!(server.get_server_id(), "server-1");
    let delivery = server.send_message(message("1", "alice", "lobby", "hi", 9)).unwrap();
    assert_eq!(delivery.line, "\nlobby alice\t> hi\n");
    assert_eq!(delivery.to_loadbalancer.get_message_id(), "1");
    server.loadbalancer_sender().send(delivery.to_loadbalancer).unwrap();
    let forwarded = lb_rx.try_recv().unwrap();
    assert_eq!(forwarded.get_content(), "hi");
    let history = server.get_room_messages(s("lobby")).unwrap();
    assert_eq!(history.len(), 1);
    assert_eq!(history[0].get_sender_id(), "alice");
    assert!(server.send_message(message("2", "alice", "nowhere", "lost", 9)).is_err());
    assert!(lb_rx.try_recv().is_err());
    assert!(server.get_room_messages(s("nowhere")).is_none());
}

#[test]
fn chat_server_adds_users_to_existing_rooms_only() {
    let (mut server, _rx) = server_with_room("lobby");
    assert_eq!(server.add_user_to_room(user("a"), s("lobby")), Ok(()));
    assert_eq!(server.add_user_to_room(user("b"), s("lobby")), Ok(()));
    assert_eq!(server.add_user_to_room(user("c"), s("nowhere")), Err(()));
    assert_eq!(ids(server.get_room_participants(s("lobby")).unwrap()), vec![s("a"), s("b")]);
    assert!(server.get_room_participants(s("nowhere")).is_none());
}

#[test]
fn chat_server_delivers_server_messages() {
    let (mut server, mut lb_rx) = server_with_room("lobby");
    let delivery = server.process_server_message(ServerMessage::new(s("bob"), s("lobby"), s("yo"))).unwrap();
    assert_eq!(delivery.line, "\nlobby bob\t> yo\n");
    server.loadbalancer_sender().send(delivery.to_loadbalancer).unwrap();
    assert_eq!(lb_rx.try_recv().unwrap().get_message_id(), "1234");
    let history = server.get_room_messages(s("lobby")).unwrap();
    assert_eq!(history[0].get_message_id(), "1234");
    assert!(server.process_server_message(ServerMessage::new(s("bob"), s("x"), s("yo"))).is_err());
}

#[test]
fn chat_server_hands_over_its_message_server_once() {
    let (mut server, _rx) = server_with_room("lobby");
    let ms = server.take_message_server().unwrap();
    assert_eq!(ms.get_id(), "1234");
    assert_eq!(ms.get_addr(), simple_chat::utils::addr([0, 0, 0, 0], 8000));
    assert!(server.take_message_server().is_none());
    assert_eq!(server.get_server_id(), "server-1");
}

#[test]
fn load_balancer_registers_servers() {
    let (server, _rx) = server_with_room("lobby");
    let mut lb = LoadBalancer::new();
    assert!(lb.get_server().is_none());
    let (tx, rx) = tokio::sync::mpsc::unbounded_channel();
    lb.add_server(&server, (tx, rx));
    let got = lb.get_server().unwrap();
    assert_eq!(got.get_server_id(), "server-1");
}

#[test]
fn server_message_with_clock_reading() {
    let m = ServerMessage::new(s("bob"), s("lobby"), s("hi")).into_message_with_clock_reading(Ok(77)).unwrap();
    assert_eq!(m.get_message_id(), "1234");
    assert_eq!(m.get_time_stamp(), 77);
    assert_eq!(m.get_room_id(), "lobby");
    assert!(ServerMessage::new(s("bob"), s("lobby"), s("hi")).into_message_with_clock_reading(Err(())).is_err());
}

#[test]
fn chat_server_delivers_with_clock_reading() {
    let (mut server, mut lb_rx) = server_with_room("lobby");
    assert!(server
        .process_server_message_with_clock_reading(ServerMessage::new(s("bob"), s("lobby"), s("yo")), Err(()))
        .is_err());
    assert!(server.get_room_messages(s("lobby")).is_none());
    let delivery = server
        .process_server_message_with_clock_reading(ServerMessage::new(s("bob"), s("lobby"), s("yo")), Ok(12))
        .unwrap();
    assert_eq!(delivery.line, "\nlobby bob\t> yo\n");
    assert_eq!(delivery.to_loadbalancer.get_time_stamp(), 12);
    server.loadbalancer_sender().send(delivery.to_loadbalancer).unwrap();
    assert_eq!(lb_rx.try_recv().unwrap().get_time_stamp(), 12);
    assert_eq!(server.get_room_messages(s("lobby")).unwrap()[0].get_time_stamp(), 12);
    assert!(server
        .process_server_message_with_clock_reading(ServerMessage::new(s("bob"), s("x"), s("yo")), Ok(1))
        .is_err());
}
