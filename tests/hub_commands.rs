use lab::hub::{
    get_command_line, is_attached, list_command_line, parse_port_state, resolve_kind,
    set_command_line,
};
use lab::{format_command, Direction, HubKind, PowerError};

#[test]
fn usb_hubs_use_ykush() {
    assert_eq!(format_command("usb").unwrap(), "ykushcmd ykush");
}

#[test]
fn relay_hubs_use_ykurcmd() {
    assert_eq!(format_command("relay").unwrap(), "ykurcmd");
}

#[test]
fn unknown_hub_kind_is_refused() {
    assert_eq!(format_command("serial").unwrap_err(), PowerError::UnsupportedHubKind);
    assert_eq!(format_command("").unwrap_err(), PowerError::UnsupportedHubKind);
    assert_eq!(format_command("USB").unwrap_err(), PowerError::UnsupportedHubKind);
    assert_eq!(resolve_kind("usb "), None);
}

#[test]
fn listing_command_line() {
    assert_eq!(list_command_line(HubKind::Usb), "ykushcmd ykush -l ");
    assert_eq!(list_command_line(HubKind::Relay), "ykurcmd -l ");
}

#[test]
fn switch_command_lines_take_first_letter_of_direction() {
    assert_eq!(
        set_command_line(HubKind::Usb, "YK12345", "2", Direction::Up),
        "ykushcmd ykush -s YK12345 -u 2"
    );
    assert_eq!(
        set_command_line(HubKind::Relay, "YK9", "1", Direction::Down),
        "ykurcmd -s YK9 -d 1"
    );
}

#[test]
fn state_command_line() {
    assert_eq!(get_command_line(HubKind::Usb, "YK12345", "3"), "ykushcmd ykush -s YK12345 -g 3");
}

#[test]
fn attachment_is_substring_match() {
    let listing = b"Attached YKUSH Boards:\nYK21624\nYK31337\n";
    assert!(is_attached(listing, "YK21624"));
    assert!(is_attached(listing, "YK313"));
    assert!(!is_attached(listing, "YK99999"));
    assert!(!is_attached(b"", "YK1"));
}

#[test]
fn port_state_reads_markers() {
    assert_eq!(parse_port_state(true, b"Downstream port 1 is ON\n"), Ok(true));
    assert_eq!(parse_port_state(true, b"Downstream port 1 is OFF\n"), Ok(false));
    assert_eq!(parse_port_state(true, b"garbage"), Ok(false));
}

#[test]
fn failed_port_state_query() {
    assert_eq!(parse_port_state(false, b"garbage"), Err(PowerError::AmbiguousPortState));
    assert_eq!(parse_port_state(false, b""), Err(PowerError::AmbiguousPortState));
    assert_eq!(parse_port_state(false, b"port is OFF"), Err(PowerError::HubOperationFailed));
    assert_eq!(parse_port_state(false, b"port is ON"), Err(PowerError::HubOperationFailed));
}
