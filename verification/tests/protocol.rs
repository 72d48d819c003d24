use smart_home::http::{Command, RequestType, Request as HttpRequest};
use smart_home::response::Response;
use smart_home::{Device, DeviceInfo, Home, Room, Server, Socket, Thermometer};

fn server_with_socket(name: &str) -> Server {
    let mut server = Server::new("127.0.0.1", 9871);
    server.add_device(Device::Socket(Socket::new(name))).unwrap();
    server
}

#[test]
fn status_of_fresh_socket() {
    let mut home = Home::new("home");
    home.add_room("room1").unwrap();
    home.add_device("room1", Device::Socket(Socket::new("s1"))).unwrap();
    let report = home.get_device_report(&DeviceInfo::new("s1", "room1")).unwrap();
    assert_eq!(report, "Socket name: s1\nstate: Off\ncurrent power: 0");

    let mut server = server_with_socket("s1");
    let line = server.handle_line("status_device s1");
    assert_eq!(line, "Ok::Socket name: s1\nstate: Off\ncurrent power: 0");
}

#[test]
fn status_after_turn_on_shows_power_in_range() {
    let mut server = server_with_socket("s1");
    assert_eq!(server.handle_line("turn_on s1"), "Ok");
    let line = server.handle_line("status_device s1");
    let prefix = "Ok::Socket name: s1\nstate: On\ncurrent power: ";
    assert!(line.starts_with(prefix));
    let power: u32 = line[prefix.len()..].parse().unwrap();
    assert!((1..100).contains(&power));
}

#[test]
fn status_of_unknown_device_is_an_error() {
    let mut server = Server::new("127.0.0.1", 9871);
    let line = server.handle_line("status_device ghost");
    assert_eq!(line, "Error::Device with name 'ghost' does not exist");
}

#[test]
fn device_names_of_empty_server() {
    let mut server = Server::new("127.0.0.1", 9871);
    assert_eq!(server.handle_line("get_device_names"), "Ok::");
}

#[test]
fn device_names_are_comma_joined() {
    let mut server = server_with_socket("socket1");
    server.add_device(Device::Socket(Socket::new("socket2"))).unwrap();
    assert_eq!(server.handle_line("get_device_names"), "Ok::socket1, socket2");
}

#[test]
fn duplicate_server_device_is_refused() {
    let mut server = server_with_socket("s1");
    let err = server.add_device(Device::Socket(Socket::new("s1"))).unwrap_err();
    assert_eq!(err, "Device with name s1 exists!");
    assert_eq!(server.handle_line("get_device_names"), "Ok::s1");
}

#[test]
fn server_address_is_rendered() {
    let server = Server::new("localhost", 65535);
    assert_eq!(server.address(), "localhost:65535");
}

#[test]
fn turn_on_twice_stays_on_without_error() {
    let mut server = server_with_socket("s1");
    assert_eq!(server.handle_line("turn_on s1"), "Ok");
    assert_eq!(server.handle_line("turn_on s1"), "Ok");
    let line = server.handle_line("status_device s1");
    assert!(line.starts_with("Ok::Socket name: s1\nstate: On\ncurrent power: "));
}

#[test]
fn turn_off_reports_off_with_zero_measurement() {
    let mut server = server_with_socket("s1");
    assert_eq!(server.handle_line("turn_on s1"), "Ok");
    assert_eq!(server.handle_line("turn_off s1"), "Ok");
    let line = server.handle_line("status_device s1");
    assert_eq!(line, "Ok::Socket name: s1\nstate: Off\ncurrent power: 0");
}

#[test]
fn thermometer_report_shows_temperature_in_range() {
    let mut server = Server::new("127.0.0.1", 9871);
    server.add_device(Device::Thermometer(Thermometer::new("t1"))).unwrap();
    let line = server.handle_line("status_device t1");
    assert_eq!(line, "Ok::Thermometer name: t1\nstate: Off\ncurrent temperature: 0");
    assert_eq!(server.handle_line("turn_on t1"), "Ok");
    let line = server.handle_line("status_device t1");
    let prefix = "Ok::Thermometer name: t1\nstate: On\ncurrent temperature: ";
    assert!(line.starts_with(prefix));
    let temp: i32 = line[prefix.len()..].parse().unwrap();
    assert!((-30..40).contains(&temp));
}

#[test]
fn status_all_joins_reports_with_record_separator() {
    let mut server = server_with_socket("a");
    server.add_device(Device::Socket(Socket::new("b"))).unwrap();
    let line = server.handle_line("status_all");
    assert_eq!(
        line,
        "Ok::Socket name: a\nstate: Off\ncurrent power: 0;;;Socket name: b\nstate: Off\ncurrent power: 0"
    );
}

#[test]
fn missing_device_name_becomes_error_request() {
    let mut server = server_with_socket("s1");
    assert_eq!(server.handle_line("turn_on"), "Error::No device name specified");
    assert_eq!(server.handle_line("turn_off"), "Error::No device name specified");
    assert_eq!(server.handle_line("status_device"), "Error::No device name specified");
}

#[test]
fn unknown_command_becomes_error_request() {
    let mut server = server_with_socket("s1");
    assert_eq!(server.handle_line("reboot s1"), "Error::Unknown command");
    assert_eq!(server.handle_line(""), "Error::Unknown command");
    assert_eq!(server.handle_line("   "), "Error::Unknown command");
}

#[test]
fn extra_whitespace_is_tolerated() {
    let mut server = server_with_socket("s1");
    assert_eq!(server.handle_line("  turn_on   s1  \n"), "Ok");
}

#[test]
fn response_round_trip() {
    let ok = Response::Success { result: Some("socket1, socket2".to_string()) };
    let line = ok.format();
    assert_eq!(line, "Ok::socket1, socket2");
    match Response::parse(&line) {
        Some(Response::Success { result: Some(p) }) => assert_eq!(p, "socket1, socket2"),
        _ => panic!("round trip lost the payload"),
    }

    let err = Response::Error { reason: "x".to_string() };
    let line = err.format();
    assert_eq!(line, "Error::x");
    match Response::parse(&line) {
        Some(Response::Error { reason }) => assert_eq!(reason, "x"),
        _ => panic!("round trip lost the reason"),
    }

    let bare = Response::Success { result: None };
    let line = bare.format();
    assert_eq!(line, "Ok");
    match Response::parse(&line) {
        Some(Response::Success { result: None }) => {}
        _ => panic!("round trip lost the bare success"),
    }
}

#[test]
fn response_parse_rejects_unknown_head() {
    assert!(Response::parse("Nope::x").is_none());
    assert!(Response::parse("").is_none());
    assert!(Response::parse("ok::x").is_none());
}

#[test]
fn batch_reports_are_independent_and_ordered() {
    let mut home = Home::new("home");
    home.add_room("room1").unwrap();
    home.add_device("room1", Device::Socket(Socket::new("s1"))).unwrap();
    let valid = DeviceInfo::new("s1", "room1");
    let invalid = DeviceInfo::new("ghost", "room1");

    let results = home.get_devices_report(&vec![
        DeviceInfo::new("s1", "room1"),
        DeviceInfo::new("ghost", "room1"),
    ]);
    assert_eq!(results.len(), 2);
    assert!(results[0].is_ok());
    assert!(results[1].is_err());

    let results = home.get_devices_report(&vec![invalid, valid]);
    assert_eq!(results.len(), 2);
    assert!(results[0].is_err());
    assert!(results[1].is_ok());
}

#[test]
fn home_errors_render_their_messages() {
    let mut home = Home::new("home");
    home.add_room("room1").unwrap();
    let dup = home.add_room("room1").unwrap_err();
    assert_eq!(dup.message(), "Room with name room1 already exists!");
    let missing = home.remove_room("cellar").unwrap_err();
    assert_eq!(missing.message(), "Room with name cellar does not exist!");
    let wrapped = home
        .add_device("cellar", Device::Socket(Socket::new("s1")))
        .unwrap_err();
    assert_eq!(wrapped.message(), "Room with name cellar does not exist!");
    home.add_device("room1", Device::Socket(Socket::new("s1"))).unwrap();
    let inner_dup = home
        .add_device("room1", Device::Socket(Socket::new("s1")))
        .unwrap_err();
    assert_eq!(inner_dup.message(), "Device with name s1 already exists!");
    let inner_missing = home
        .remove_device(&DeviceInfo::new("ghost", "room1"))
        .unwrap_err();
    assert_eq!(inner_missing.message(), "Device with name ghost does not exist");
}

#[test]
fn room_report_frames_each_device() {
    let mut room = Room::new("room1");
    room.add_device(Device::Socket(Socket::new("s1"))).unwrap();
    assert_eq!(
        room.get_report(),
        "Room name: room1\n\tdevices: [\nSocket name: s1\nstate: Off\ncurrent power: 0\n]\n"
    );
}

#[test]
fn home_report_frames_each_room() {
    let mut home = Home::new("home");
    home.add_room("room1").unwrap();
    home.add_device("room1", Device::Socket(Socket::new("s1"))).unwrap();
    assert_eq!(
        home.get_home_report(),
        "Home name: home\nrooms: [\nRoom name: room1\n\tdevices: [\nSocket name: s1\nstate: Off\ncurrent power: 0\n]\n]"
    );
}

#[test]
fn path_command_parses_each_form() {
    assert!(matches!(Command::parse("/"), Ok(Command::ShowMain)));
    assert!(matches!(
        Command::parse("/turn_on/s1"),
        Ok(Command::TurnOn { device_name }) if device_name == "s1"
    ));
    assert!(matches!(
        Command::parse("/TURN_OFF/s1"),
        Ok(Command::TurnOff { device_name }) if device_name == "s1"
    ));
    assert!(matches!(Command::parse("/status_all"), Ok(Command::GetStatus)));
    assert!(matches!(
        Command::parse("/status_device/t1"),
        Ok(Command::GetDeviceStatus { device_name }) if device_name == "t1"
    ));
    assert!(matches!(Command::parse("/flavicon.ico"), Ok(Command::Ignore)));
    assert!(matches!(
        Command::parse("/reboot"),
        Ok(Command::Error { error_msg }) if error_msg == "Unknown request"
    ));
    assert!(matches!(
        Command::parse("no-slash"),
        Ok(Command::Error { error_msg }) if error_msg == "Cannot parse request"
    ));
    assert!(Command::parse("/turn_on").is_err());
    assert!(Command::parse("/turn_off").is_err());
    assert!(Command::parse("/status_device").is_err());
}

#[test]
fn request_type_parses_case_insensitively() {
    assert_eq!(RequestType::parse("GET"), Ok(RequestType::Get));
    assert_eq!(RequestType::parse(" post "), Ok(RequestType::Post));
    assert_eq!(RequestType::parse("Del"), Ok(RequestType::Del));
    assert_eq!(RequestType::parse("put"), Ok(RequestType::Put));
    assert_eq!(RequestType::parse("patch"), Err(()));
}

#[test]
fn http_request_line_parses_method_and_path() {
    let req = Server::parse_request("GET /turn_on/s1 HTTP/1.1").unwrap();
    assert_eq!(req.req_type, RequestType::Get);
    assert!(matches!(req.command, Command::TurnOn { device_name } if device_name == "s1"));

    let req = Server::parse_request("").unwrap();
    assert_eq!(req.req_type, RequestType::Get);
    assert!(matches!(req.command, Command::ShowMain));

    assert!(Server::parse_request("FETCH /status_all HTTP/1.1").is_err());
    assert!(Server::parse_request("GET /turn_on HTTP/1.1").is_err());

    let built = HttpRequest::new(RequestType::Post, Command::GetStatus);
    assert_eq!(built.req_type, RequestType::Post);
    assert!(matches!(built.command, Command::GetStatus));

    let dflt = HttpRequest::default();
    assert_eq!(dflt.req_type, RequestType::Get);
    assert!(matches!(dflt.command, Command::ShowMain));
}

#[test]
fn error_request_reason_passes_through_unchanged() {
    let mut server = Server::new("127.0.0.1", 9871);
    let request = smart_home::request::Request::Error { reason: "boom".to_string() };
    let response = server.execute(request);
    assert_eq!(response.format(), "Error::boom");
}
