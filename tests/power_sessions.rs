use lab::{
    is_powered, power_off, reboot, toggle_power_state, Board, HubAction, Ops, Outcome, PowerError,
    PowerOp, PowerSession, Reply, Status,
};

fn board(kind: &str) -> Board {
    Board {
        name: "icicle".to_string(),
        yk_serial_number: "YK21624".to_string(),
        yk_port_number: "1".to_string(),
        power_source: kind.to_string(),
        primary_uart: None,
    }
}

fn describe(a: &HubAction) -> String {
    match a {
        HubAction::Run(c) => format!("run {}", c),
        HubAction::Sleep(ms) => format!("sleep {}", ms),
        HubAction::Done(r) => format!("done {:?}", r),
    }
}

fn drive(session: &mut PowerSession, replies: Vec<Reply>) -> Vec<String> {
    replies.iter().map(|r| describe(&session.step(r))).collect()
}

fn listing() -> Reply {
    Reply::ran(true, b"Attached YKUSH Boards:\nYK21624\n".to_vec())
}

fn ok() -> Reply {
    Reply::ran(true, Vec::new())
}

#[test]
fn unsupported_kind_runs_nothing() {
    for op in [PowerOp::On, PowerOp::Off, PowerOp::Reboot, PowerOp::Query] {
        let mut s = PowerSession::new(op, &board("ykush3"));
        let acts = drive(&mut s, vec![Reply::nothing(), listing(), ok()]);
        assert_eq!(acts, vec!["done Err(UnsupportedHubKind)"; 3]);
        assert_eq!(s.result(), Some(Err(PowerError::UnsupportedHubKind)));
    }
}

#[test]
fn absent_board_is_not_attached() {
    for op in [PowerOp::On, PowerOp::Off, PowerOp::Reboot, PowerOp::Query] {
        let mut s = PowerSession::new(op, &board("usb"));
        let other = Reply::ran(true, b"Attached YKUSH Boards:\nYK99999\n".to_vec());
        let acts = drive(&mut s, vec![Reply::nothing(), other, ok()]);
        assert_eq!(
            acts,
            vec![
                "run ykushcmd ykush -l ",
                "done Err(BoardNotAttached)",
                "done Err(BoardNotAttached)"
            ]
        );
    }
}

#[test]
fn power_on_switches_up() {
    let mut s = board("usb").power_on();
    let acts = drive(&mut s, vec![Reply::nothing(), listing(), ok()]);
    assert_eq!(
        acts,
        vec!["run ykushcmd ykush -l ", "run ykushcmd ykush -s YK21624 -u 1", "done Ok(Switched)"]
    );
}

#[test]
fn power_off_twice_succeeds_both_times() {
    for _ in 0..2 {
        let mut s = board("relay").power_off();
        let acts = drive(&mut s, vec![Reply::nothing(), listing(), ok()]);
        assert_eq!(acts, vec!["run ykurcmd -l ", "run ykurcmd -s YK21624 -d 1", "done Ok(Switched)"]);
        assert_eq!(s.result(), Some(Ok(Outcome::Switched)));
    }
}

#[test]
fn reboot_is_off_sleep_on() {
    let mut s = board("usb").reboot();
    let acts = drive(&mut s, vec![Reply::nothing(), listing(), ok(), Reply::nothing(), listing(), ok(), ok()]);
    assert_eq!(
        acts,
        vec![
            "run ykushcmd ykush -l ",
            "run ykushcmd ykush -s YK21624 -d 1",
            "sleep 1000",
            "run ykushcmd ykush -l ",
            "run ykushcmd ykush -s YK21624 -u 1",
            "done Ok(Switched)",
            "done Ok(Switched)"
        ]
    );
}

#[test]
fn reboot_stops_when_off_fails() {
    let mut s = reboot("icicle", "YK21624", "1", "usb");
    let failed = Reply::ran(false, Vec::new());
    let acts = drive(&mut s, vec![Reply::nothing(), listing(), failed, ok(), ok()]);
    assert_eq!(
        acts,
        vec![
            "run ykushcmd ykush -l ",
            "run ykushcmd ykush -s YK21624 -d 1",
            "done Err(HubOperationFailed)",
            "done Err(HubOperationFailed)",
            "done Err(HubOperationFailed)"
        ]
    );
}

#[test]
fn tool_that_cannot_start() {
    let mut s = power_off("icicle", "YK21624", "1", "usb");
    let acts = drive(&mut s, vec![Reply::nothing(), Reply::nothing()]);
    assert_eq!(acts, vec!["run ykushcmd ykush -l ", "done Err(HubToolExecutionError)"]);
}

#[test]
fn incomplete_board_is_a_config_error() {
    let mut b = board("usb");
    b.yk_port_number = String::new();
    let mut s = b.power_on();
    let acts = drive(&mut s, vec![Reply::nothing()]);
    assert_eq!(acts, vec!["done Err(ConfigError)"]);
}

#[test]
fn query_reads_port_state() {
    let mut s = board("usb").is_powered();
    let acts = drive(&mut s, vec![Reply::nothing(), listing(), Reply::ran(true, b"Port 1 is ON".to_vec())]);
    assert_eq!(
        acts,
        vec!["run ykushcmd ykush -l ", "run ykushcmd ykush -s YK21624 -g 1", "done Ok(Powered(true))"]
    );
    let mut s = is_powered(&board("usb"));
    let acts = drive(&mut s, vec![Reply::nothing(), listing(), Reply::ran(false, b"???".to_vec())]);
    assert_eq!(acts[2], "done Err(AmbiguousPortState)");
}

#[test]
fn toggle_picks_the_other_state() {
    let b = board("usb");
    assert_eq!(toggle_power_state(&b, true).op(), PowerOp::Off);
    assert_eq!(toggle_power_state(&b, false).op(), PowerOp::On);
    assert_eq!(toggle_power_state(&b, false).board_name(), "icicle");
}

#[test]
fn console_sessions_need_a_uart() {
    let mut b = board("usb");
    assert_eq!(b.expect_boot().unwrap_err().details(), "No uart config found");
    b.primary_uart = Some("/dev/serial/by-id/x-if00".to_string());
    assert!(b.expect_boot().is_ok());
    assert!(b.expect_shutdown().is_ok());
    b.yk_serial_number = String::new();
    assert_eq!(b.expect_boot().unwrap_err().details(), "Board record is incomplete");
    assert_eq!(b.expect_shutdown().unwrap_err().details(), "Board record is incomplete");
}
