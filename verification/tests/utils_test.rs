use simple_chat::servers::messages::user_mapping_server_addr;
use simple_chat::servers::MessageServer;
use simple_chat::servers::UserMappingServer;
use simple_chat::utils::addr;
use simple_chat::utils::from_url_safe;
use simple_chat::utils::quoted;
use simple_chat::utils::url_safe;
use simple_chat::utils::SocketAddress;
use simple_chat::Message;
use simple_chat::servers::messages::connection_step;
use simple_chat::servers::messages::ConnectionAction;
use simple_chat::servers::messages::SocketEvent;
use simple_chat::servers::messages::user_message_reply;
use simple_chat::message::ServerMessage;
use simple_chat::servers::messages::console_line;
use simple_chat::loadbalancer::echo_step;
use simple_chat::loadbalancer::EchoAction;

#[test]
fn addr_builds_ipv4_addresses() {
    let a = addr([127, 0, 0, 1], 8000);
    assert_eq!(a, SocketAddress::V4 { ip: [127, 0, 0, 1], port: 8000 });
    assert_eq!(a.port(), 8000);
}

#[test]
fn url_safe_escapes_reserved_characters() {
    assert_eq!(url_safe("\"0.0.0.0:1111\""), "0.0.0.0%3A1111");
    assert_eq!(url_safe("a,b:c[d]e\"f"), "a%2Cb%3Ac%5Bd%5Def");
    assert_eq!(url_safe(""), "");
}

#[test]
fn from_url_safe_undoes_escapes() {
    assert_eq!(from_url_safe("0.0.0.0%3A1111"), "0.0.0.0:1111");
    assert_eq!(from_url_safe("%2C%3A%5B%5D"), ",:[]");
    assert_eq!(from_url_safe("%41%3"), "%41%3");
    assert_eq!(from_url_safe("%"), "%");
}

#[test]
fn url_round_trip() {
    let text = "[::1]:80,x";
    assert_eq!(from_url_safe(&url_safe(text)), text);
}

#[test]
fn quoted_wraps_in_quotes() {
    assert_eq!(quoted("1.2.3.4:5"), "\"1.2.3.4:5\"");
}

#[test]
fn message_server_keeps_connections() {
    let mut ms = MessageServer::new(String::from("1234"), addr([0, 0, 0, 0], 8000));
    assert_eq!(ms.get_id(), "1234");
    assert_eq!(ms.get_addr(), addr([0, 0, 0, 0], 8000));
    assert!(ms.local_connection(&String::from("u1")).is_none());
    let (tx, mut rx) = tokio::sync::mpsc::channel::<Message>(4);
    ms.register_connection(String::from("u1"), tx);
    let sender = ms.local_connection(&String::from("u1")).unwrap();
    let m = Message::with_clock_reading(
        String::from("1"),
        String::from("a"),
        String::from("r"),
        String::from("c"),
        Ok(3),
    )
    .unwrap();
    sender.try_send(m).unwrap();
    assert_eq!(rx.try_recv().unwrap().get_content(), "c");
}

#[test]
fn user_mapping_server_fields() {
    let s = UserMappingServer::new(String::from("um"), addr([0, 0, 0, 0], 3000));
    assert_eq!(s.get_id(), "um");
    assert_eq!(s.get_addr(), user_mapping_server_addr());
}

#[test]
fn connection_steps() {
    assert!(matches!(connection_step(SocketEvent::Close), ConnectionAction::Stop));
    match connection_step(SocketEvent::Text(String::from("{}"))) {
        ConnectionAction::Process(m) => assert_eq!(m, "{}"),
        _ => panic!("a text is processed"),
    }
    match connection_step(SocketEvent::Error) {
        ConnectionAction::Reply(t) => assert_eq!(t, "Error"),
        _ => panic!("a broken frame is answered"),
    }
    assert!(matches!(connection_step(SocketEvent::Ended), ConnectionAction::Fail));
    assert!(matches!(connection_step(SocketEvent::Other), ConnectionAction::Ignore));
}

#[test]
fn user_message_replies() {
    assert_eq!(user_message_reply(false, false), Err(String::from("Message not valid")));
    assert_eq!(user_message_reply(false, true), Err(String::from("Message not valid")));
    assert_eq!(user_message_reply(true, false), Err(String::from("Something gone wrong")));
    assert_eq!(user_message_reply(true, true), Ok(String::from("Message received")));
}

#[test]
fn console_lines() {
    let m = ServerMessage::new(String::from("bob"), String::from("lobby"), String::from("hi there"));
    assert_eq!(console_line(&m), "bob >\thi there");
}

#[test]
fn echo_steps() {
    assert!(matches!(echo_step(SocketEvent::Close), EchoAction::Stop));
    assert!(matches!(echo_step(SocketEvent::Ended), EchoAction::Stop));
    assert!(matches!(echo_step(SocketEvent::Error), EchoAction::Skip));
    assert!(matches!(echo_step(SocketEvent::Other), EchoAction::Skip));
    match echo_step(SocketEvent::Text(String::from("ping"))) {
        EchoAction::Echo(m) => assert_eq!(m, "ping"),
        _ => panic!("a text comes back"),
    }
}
