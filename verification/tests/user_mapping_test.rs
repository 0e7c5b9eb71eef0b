use simple_chat::servers::user_mapping::UserServerTable;
use simple_chat::utils::addr;
use simple_chat::utils::from_url_safe;
use simple_chat::utils::quoted;
use simple_chat::utils::url_safe;
use simple_chat::utils::SocketAddress;

/// The JSON text of an IPv4 socket address, as serde_json writes it.
fn to_json(a: SocketAddress) -> String {
    match a {
        SocketAddress::V4 { ip, port } => {
            format!("\"{}.{}.{}.{}:{}\"", ip[0], ip[1], ip[2], ip[3], port)
        }
        SocketAddress::V6 { .. } => panic!("only IPv4 addresses are written here"),
    }
}

/// Reads a quoted IPv4 socket address, as serde_json reads one; `None` when
/// the text is not one.
fn from_json(text: &str) -> Option<SocketAddress> {
    let inner = text.strip_prefix('"')?.strip_suffix('"')?;
    let (ip, port) = inner.split_once(':')?;
    let port: u16 = port.parse().ok()?;
    let parts: Vec<u8> = ip.split('.').map(|p| p.parse::<u8>()).collect::<Result<_, _>>().ok()?;
    if parts.len() != 4 {
        return None;
    }
    Some(addr([parts[0], parts[1], parts[2], parts[3]], port))
}

/// What the user-mapping server answers to `GET /<id>`.
fn server_req(id: &str) -> String {
    let table = UserServerTable::initial();
    match table.get_user_server_addr(&id.to_string()) {
        Some(a) => to_json(a),
        None => String::from(""),
    }
}

/// What the user-mapping server answers to `PUT /<id>/<addr>`, with the
/// address written into the path as a client writes it.
fn put_server_req(id: &str, addr: SocketAddress) -> String {
    let text = to_json(addr);
    let segment = url_safe(&text);
    let decoded = from_url_safe(&segment);
    let parsed = from_json(&quoted(&decoded));
    let mut table = UserServerTable::initial();
    match table.set_user_server_addr(String::from(id), parsed) {
        Ok(text) => text,
        Err(text) => text,
    }
}

#[test]
fn get_user_1234_server() {
    let id = "1234";
    let response = server_req(id);
    assert_eq!(response, String::from("\"0.1.2.3:1234\""))
}

#[test]
fn get_user_1267_server() {
    let id = "1267";
    let response = server_req(id);
    assert_eq!(response, String::from("\"0.1.2.4:1267\""))
}

#[test]
fn get_user_4590_server() {
    let id = "4590";
    let response = server_req(id);
    assert_eq!(response, String::from("\"0.1.2.5:4590\""))
}

#[test]
fn get_user_2846_server() {
    let id = "2846";
    let response = server_req(id);
    assert_eq!(response, String::from("\"0.1.2.6:2846\""))
}

#[test]
fn post_user_4567_server() {
    let addr = addr([0, 0, 0, 0], 1111);
    let id = "1234";
    let response = put_server_req(id, addr);
    assert_eq!(response, "Done")
}

#[test]
fn unknown_user_has_no_server() {
    assert_eq!(server_req("9999"), String::from(""));
}

#[test]
fn set_then_get_user_server() {
    let mut table = UserServerTable::initial();
    let a = addr([10, 0, 0, 7], 8080);
    assert_eq!(table.set_user_server_addr(String::from("1234"), Some(a)), Ok(String::from("Done")));
    assert_eq!(table.get_user_server_addr(&String::from("1234")), Some(a));
    assert_eq!(
        table.get_user_server_addr(&String::from("1267")),
        Some(addr([0, 1, 2, 4], 1267))
    );
    assert_eq!(table.set_user_server_addr(String::from("77"), Some(a)), Ok(String::from("Done")));
    assert_eq!(table.get_user_server_addr(&String::from("77")), Some(a));
}

#[test]
fn invalid_address_is_refused() {
    let mut table = UserServerTable::initial();
    let r = table.set_user_server_addr(String::from("1234"), None);
    assert_eq!(r, Err(String::from("Address not valid")));
    assert_eq!(table.get_user_server_addr(&String::from("1234")), Some(addr([0, 1, 2, 3], 1234)));
}

#[test]
fn unparsable_address_is_refused_through_the_route() {
    let parsed = from_json(&quoted("not-an-address"));
    let mut table = UserServerTable::new();
    assert_eq!(
        table.set_user_server_addr(String::from("5"), parsed),
        Err(String::from("Address not valid"))
    );
    assert_eq!(table.get_user_server_addr(&String::from("5")), None);
}

#[test]
fn address_text_round_trips_through_the_url() {
    let a = addr([192, 168, 1, 20], 65535);
    let segment = url_safe(&to_json(a));
    assert_eq!(segment, "192.168.1.20%3A65535");
    assert_eq!(from_json(&quoted(&from_url_safe(&segment))), Some(a));
}
