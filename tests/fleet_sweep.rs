use lab::{goodnight, BoardEntry, BoardsSection, Config, Field, HubAction, Outcome, PowerError, Reply};

fn entry(name: &str, serial: &str, kind: &str) -> BoardEntry {
    BoardEntry {
        name: Some(name.to_string()),
        serial: Field::Text(serial.to_string()),
        port: Field::Text("1".to_string()),
        kind: Field::Text(kind.to_string()),
        uart_pattern: Field::Missing,
        uart_primary: Field::Missing,
    }
}

fn describe(a: &HubAction) -> String {
    match a {
        HubAction::Run(c) => format!("run {}", c),
        HubAction::Sleep(ms) => format!("sleep {}", ms),
        HubAction::Done(r) => format!("done {:?}", r),
    }
}

#[test]
fn sweep_goes_on_after_a_failing_board() {
    let c = Config {
        boards: BoardsSection::Entries(vec![entry("a", "YKA", "usb"), entry("b", "YKB", "relay")]),
    };
    let mut w = goodnight(&c).unwrap();
    let listing = || Reply::ran(true, b"YKA\nYKB\n".to_vec());
    let replies = vec![
        Reply::nothing(),
        listing(),
        Reply::ran(true, Vec::new()),
        listing(),
        Reply::ran(false, Vec::new()),
    ];
    let acts: Vec<String> = replies.iter().map(|r| describe(&w.step(r))).collect();
    assert_eq!(
        acts,
        vec![
            "run ykushcmd ykush -l ",
            "run ykushcmd ykush -s YKA -d 1",
            "run ykurcmd -l ",
            "run ykurcmd -s YKB -d 1",
            "done Ok(Switched)"
        ]
    );
    assert_eq!(
        w.outcomes(),
        &vec![Ok(Outcome::Switched), Err(PowerError::HubOperationFailed)]
    );
}

#[test]
fn sweep_skips_unsupported_board_at_once() {
    let c = Config {
        boards: BoardsSection::Entries(vec![entry("x", "YKX", "gpio"), entry("a", "YKA", "usb")]),
    };
    let mut w = goodnight(&c).unwrap();
    assert_eq!(describe(&w.step(&Reply::nothing())), "run ykushcmd ykush -l ");
    assert_eq!(w.current_board().unwrap().name, "a");
    assert_eq!(w.outcomes(), &vec![Err(PowerError::UnsupportedHubKind)]);
    assert_eq!(describe(&w.step(&Reply::nothing())), "done Ok(Switched)");
    assert_eq!(
        w.outcomes(),
        &vec![Err(PowerError::UnsupportedHubKind), Err(PowerError::HubToolExecutionError)]
    );
}

#[test]
fn empty_registry_sweep_is_done() {
    let c = Config { boards: BoardsSection::Entries(Vec::new()) };
    let mut w = goodnight(&c).unwrap();
    assert_eq!(describe(&w.step(&Reply::nothing())), "done Ok(Switched)");
    assert!(w.current_board().is_none());
}

#[test]
fn sweep_needs_a_registry() {
    let c = Config { boards: BoardsSection::Missing };
    assert_eq!(goodnight(&c).unwrap_err().details(), "No boards found");
}

#[test]
fn sweep_records_bad_entries_and_goes_on() {
    let mut no_serial = entry("x", "YKX", "usb");
    no_serial.serial = Field::Missing;
    let mut bad_key = entry("y", "YKY", "usb");
    bad_key.name = None;
    let c = Config {
        boards: BoardsSection::Entries(vec![no_serial, entry("a", "YKA", "usb"), bad_key]),
    };
    let mut w = goodnight(&c).unwrap();
    assert!(w.current_board().is_none());
    assert_eq!(describe(&w.step(&Reply::nothing())), "run ykushcmd ykush -l ");
    assert_eq!(w.current_board().unwrap().name, "a");
    assert_eq!(w.outcomes(), &vec![Err(PowerError::ConfigError)]);
    let listing = Reply::ran(true, b"YKA\n".to_vec());
    assert_eq!(describe(&w.step(&listing)), "run ykushcmd ykush -s YKA -d 1");
    assert_eq!(describe(&w.step(&Reply::ran(true, Vec::new()))), "done Ok(Switched)");
    assert_eq!(
        w.outcomes(),
        &vec![Err(PowerError::ConfigError), Ok(Outcome::Switched), Err(PowerError::ConfigError)]
    );
}

#[test]
fn sweep_fails_only_without_a_boards_mapping() {
    let c = Config { boards: BoardsSection::NotMapping };
    assert_eq!(goodnight(&c).unwrap_err().details(), "No boards found");
    let mut empty = entry("e", "", "usb");
    empty.port = Field::Text(String::new());
    let c = Config { boards: BoardsSection::Entries(vec![empty]) };
    let mut w = goodnight(&c).unwrap();
    assert_eq!(describe(&w.step(&Reply::nothing())), "done Ok(Switched)");
    assert_eq!(w.outcomes(), &vec![Err(PowerError::ConfigError)]);
}
