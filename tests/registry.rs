use lab::{
    get_all_boards_from_config, get_board_from_config, power_off_board, reboot_board, BoardEntry,
    BoardsSection, Config, Field, HubAction, Reply,
};

fn text(s: &str) -> Field {
    Field::Text(s.to_string())
}

fn entry(name: &str, serial: &str, port: &str, kind: &str) -> BoardEntry {
    BoardEntry {
        name: Some(name.to_string()),
        serial: text(serial),
        port: text(port),
        kind: text(kind),
        uart_pattern: text("usb-Microchip_PolarFire_Icicle_Kit"),
        uart_primary: text("if00-port0"),
    }
}

fn config(entries: Vec<BoardEntry>) -> Config {
    Config { boards: BoardsSection::Entries(entries) }
}

fn message(c: &Config, name: &str) -> String {
    get_board_from_config(name, c).unwrap_err().details().to_string()
}

#[test]
fn board_is_read_with_its_uart_path() {
    let c = config(vec![entry("icicle", "YK21624", "1", "usb"), entry("pi", "YK1", "2", "relay")]);
    let b = get_board_from_config("pi", &c).unwrap();
    assert_eq!(b.name, "pi");
    assert_eq!(b.yk_serial_number, "YK1");
    assert_eq!(b.yk_port_number, "2");
    assert_eq!(b.power_source, "relay");
    assert_eq!(
        b.primary_uart.as_deref(),
        Some("/dev/serial/by-id/usb-Microchip_PolarFire_Icicle_Kit-if00-port0")
    );
}

#[test]
fn board_without_uart_has_no_console() {
    let mut e = entry("icicle", "YK21624", "1", "usb");
    e.uart_pattern = Field::Missing;
    e.uart_primary = Field::Missing;
    let b = get_board_from_config("icicle", &config(vec![e])).unwrap();
    assert_eq!(b.primary_uart, None);
}

#[test]
fn missing_or_malformed_fields() {
    let mut e = entry("a", "YK1", "1", "usb");
    e.serial = Field::Missing;
    assert_eq!(message(&config(vec![e]), "a"), "No serial number found");
    let mut e = entry("a", "YK1", "1", "usb");
    e.serial = Field::NotText;
    assert_eq!(message(&config(vec![e]), "a"), "Serial number was not a string");
    let mut e = entry("a", "YK1", "1", "usb");
    e.port = Field::Missing;
    assert_eq!(message(&config(vec![e]), "a"), "No port number found");
    let mut e = entry("a", "YK1", "1", "usb");
    e.port = Field::NotText;
    assert_eq!(message(&config(vec![e]), "a"), "Port number was not a string");
    let mut e = entry("a", "YK1", "1", "usb");
    e.kind = Field::Missing;
    assert_eq!(message(&config(vec![e]), "a"), "No type found");
    let mut e = entry("a", "YK1", "1", "usb");
    e.kind = Field::NotText;
    assert_eq!(message(&config(vec![e]), "a"), "Type was not a string");
}

#[test]
fn empty_fields_are_refused() {
    assert_eq!(message(&config(vec![entry("a", "", "1", "usb")]), "a"), "Serial number was empty");
    assert_eq!(message(&config(vec![entry("a", "YK1", "", "usb")]), "a"), "Port number was empty");
    assert_eq!(message(&config(vec![entry("a", "YK1", "1", "")]), "a"), "Type was empty");
    let c = config(vec![entry("a", "YK1", "1", "usb"), entry("b", "YK2", "", "usb")]);
    assert_eq!(get_all_boards_from_config(&c).unwrap_err().details(), "Port number was empty");
}

#[test]
fn unknown_board_and_missing_section() {
    let c = config(vec![entry("icicle", "YK21624", "1", "usb")]);
    assert_eq!(message(&c, "beagle"), "Requested board not found");
    assert_eq!(message(&Config { boards: BoardsSection::Missing }, "icicle"), "No boards found");
    assert_eq!(
        message(&Config { boards: BoardsSection::NotMapping }, "icicle"),
        "Requested board not found"
    );
}

#[test]
fn all_boards_in_document_order() {
    let c = config(vec![entry("b", "YK2", "2", "usb"), entry("a", "YK1", "1", "relay")]);
    let all = get_all_boards_from_config(&c).unwrap();
    let names: Vec<&str> = all.iter().map(|b| b.name.as_str()).collect();
    assert_eq!(names, vec!["b", "a"]);
    assert_eq!(get_all_boards_from_config(&config(Vec::new())).unwrap().len(), 0);
}

#[test]
fn all_boards_stops_at_first_bad_entry() {
    let mut bad = entry("x", "YK3", "3", "usb");
    bad.name = None;
    let c = config(vec![entry("a", "YK1", "1", "usb"), bad]);
    assert_eq!(
        get_all_boards_from_config(&c).unwrap_err().details(),
        "name was not a string"
    );
    let c = Config { boards: BoardsSection::Missing };
    assert_eq!(get_all_boards_from_config(&c).unwrap_err().details(), "No boards found");
}

#[test]
fn round_trip_keeps_command_line_values() {
    let c = config(vec![entry("icicle", "YK21624", "4", "usb")]);
    let mut s = reboot_board("icicle", &c).unwrap();
    let listing = Reply::ran(true, b"YK21624".to_vec());
    s.step(&Reply::nothing());
    match s.step(&listing) {
        HubAction::Run(line) => assert_eq!(line, "ykushcmd ykush -s YK21624 -d 4"),
        other => panic!("unexpected {:?}", other),
    }
}

#[test]
fn lookup_failure_starts_no_session() {
    let c = config(vec![entry("icicle", "YK21624", "4", "usb")]);
    assert_eq!(
        power_off_board("nope", &c).unwrap_err().details(),
        "Requested board not found"
    );
}
