//! The hub command adapter: which tool drives a hub, the command lines given
//! to it, and how its output is read.
use vstd::prelude::*;
use vstd::string::*;

use crate::error::PowerError;
use crate::text::{contains, contains_bytes, same_text, utf8};

verus! {

/// The hub families the engine knows how to drive.
#[derive(Debug, Clone, Copy, PartialEq, Eq, Structural)]
pub enum HubKind {
    /// A USB power hub, driven by `ykushcmd ykush`.
    Usb,
    /// A relay board, driven by `ykurcmd`.
    Relay,
}

/// Which way a port is switched.
#[derive(Debug, Clone, Copy, PartialEq, Eq, Structural)]
pub enum Direction {
    Up,
    Down,
}

/// The hub family that a board's `power_source` text names, if any.
pub open spec fn kind_of(power_source: Seq<char>) -> Option<HubKind> {
    if power_source == "usb"@ {
        Some(HubKind::Usb)
    } else if power_source == "relay"@ {
        Some(HubKind::Relay)
    } else {
        None
    }
}

/// The program, with its leading arguments, that drives a hub family.
pub open spec fn command_prefix(kind: HubKind) -> Seq<char> {
    match kind {
        HubKind::Usb => "ykushcmd ykush"@,
        HubKind::Relay => "ykurcmd"@,
    }
}

/// The word for a direction; its first letter is the tool's flag.
pub open spec fn direction_word(d: Direction) -> Seq<char> {
    match d {
        Direction::Up => "up"@,
        Direction::Down => "down"@,
    }
}

/// The command line that lists the attached hubs.
pub open spec fn list_command(kind: HubKind) -> Seq<char> {
    command_prefix(kind) + " -l "@
}

/// The command line that switches one port of one hub.
pub open spec fn set_command(kind: HubKind, serial: Seq<char>, port: Seq<char>, d: Direction) -> Seq<
    char,
> {
    command_prefix(kind) + " -s "@ + serial + " -"@ + seq![direction_word(d)[0]] + " "@ + port
}

/// The command line that asks for the state of one port of one hub.
pub open spec fn get_command(kind: HubKind, serial: Seq<char>, port: Seq<char>) -> Seq<char> {
    command_prefix(kind) + " -s "@ + serial + " -g "@ + port
}

/// A hub is attached when its serial number appears anywhere in the listing.
/// The match is a plain substring match: a serial number that is part of
/// another one is taken as attached too.
pub open spec fn attached(listing: Seq<u8>, serial: Seq<char>) -> bool {
    contains(listing, utf8(serial))
}

/// The marker a state query prints for a powered port.
pub open spec fn on_marker() -> Seq<u8> {
    utf8("ON"@)
}

/// The marker a state query prints for an unpowered port.
pub open spec fn off_marker() -> Seq<u8> {
    utf8("OFF"@)
}

/// What a state query's exit status and output say of the port: powered
/// when the output holds the on marker.  A failed query is an error, and an
/// ambiguous one when the output holds no marker at all.
pub open spec fn port_state(success: bool, output: Seq<u8>) -> Result<bool, PowerError> {
    if success {
        Ok(contains(output, on_marker()))
    } else if contains(output, on_marker()) || contains(output, off_marker()) {
        Err(PowerError::HubOperationFailed)
    } else {
        Err(PowerError::AmbiguousPortState)
    }
}

/// Picks the hub family that a board's power source names.
pub fn resolve_kind(power_source: &str) -> (r: Option<HubKind>)
    ensures
        r == kind_of(power_source@),
{
    if same_text(power_source, "usb") {
        Some(HubKind::Usb)
    } else if same_text(power_source, "relay") {
        Some(HubKind::Relay)
    } else {
        None
    }
}

/// The command prefix for a hub family.
pub fn prefix_of(kind: HubKind) -> (r: String)
    ensures
        r@ == command_prefix(kind),
{
    match kind {
        HubKind::Usb => String::from_str("ykushcmd ykush"),
        HubKind::Relay => String::from_str("ykurcmd"),
    }
}

/// The command prefix for the hub family a power source names; fails when it
/// names none.
pub fn format_command(power_source: &str) -> (r: Result<String, PowerError>)
    ensures
        match kind_of(power_source@) {
            Some(k) => r is Ok && r->Ok_0@ == command_prefix(k),
            None => r matches Err(PowerError::UnsupportedHubKind),
        },
{
    match resolve_kind(power_source) {
        Some(k) => Ok(prefix_of(k)),
        None => Err(PowerError::UnsupportedHubKind),
    }
}

/// Builds the command line that lists the attached hubs.
pub fn list_command_line(kind: HubKind) -> (r: String)
    ensures
        r@ == list_command(kind),
{
    let mut s = prefix_of(kind);
    s.append(" -l ");
    s
}

/// Builds the command line that switches a port up or down.
pub fn set_command_line(kind: HubKind, serial: &str, port: &str, d: Direction) -> (r: String)
    ensures
        r@ == set_command(kind, serial@, port@, d),
{
    let mut s = prefix_of(kind);
    s.append(" -s ");
    s.append(serial);
    match d {
        Direction::Up => {
            s.append(" -u ");
            proof {
                reveal_strlit(" -u ");
                reveal_strlit(" -");
                reveal_strlit(" ");
                reveal_strlit("up");
                assert(" -u "@ =~= " -"@ + seq![direction_word(d)[0]] + " "@);
            }
        },
        Direction::Down => {
            s.append(" -d ");
            proof {
                reveal_strlit(" -d ");
                reveal_strlit(" -");
                reveal_strlit(" ");
                reveal_strlit("down");
                assert(" -d "@ =~= " -"@ + seq![direction_word(d)[0]] + " "@);
            }
        },
    }
    s.append(port);
    proof {
        let p = command_prefix(kind);
        let f = " -"@ + seq![direction_word(d)[0]] + " "@;
        assert(s@ =~= p + " -s "@ + serial@ + f + port@);
        assert(set_command(kind, serial@, port@, d) =~= p + " -s "@ + serial@ + f + port@);
    }
    s
}

/// Builds the command line that asks for a port's state.
pub fn get_command_line(kind: HubKind, serial: &str, port: &str) -> (r: String)
    ensures
        r@ == get_command(kind, serial@, port@),
{
    let mut s = prefix_of(kind);
    s.append(" -s ");
    s.append(serial);
    s.append(" -g ");
    s.append(port);
    s
}

/// Tells whether the hub with this serial number appears in a listing.
pub fn is_attached(listing: &[u8], serial: &str) -> (r: bool)
    ensures
        r == attached(listing@, serial@),
{
    contains_bytes(listing, serial.as_bytes())
}

/// Reads a state query's exit status and output.
pub fn parse_port_state(success: bool, output: &[u8]) -> (r: Result<bool, PowerError>)
    ensures
        r == port_state(success, output@),
{
    let on = contains_bytes(output, "ON".as_bytes());
    if success {
        Ok(on)
    } else if on || contains_bytes(output, "OFF".as_bytes()) {
        Err(PowerError::HubOperationFailed)
    } else {
        Err(PowerError::AmbiguousPortState)
    }
}

} // verus!

verus! {

/// The switch-up and switch-down command lines of a port differ.
pub proof fn lemma_directions_differ(kind: HubKind, serial: Seq<char>, port: Seq<char>)
    ensures
        set_command(kind, serial, port, Direction::Up) != set_command(
            kind,
            serial,
            port,
            Direction::Down,
        ),
{
    reveal_strlit("up");
    reveal_strlit("down");
    reveal_strlit(" -s ");
    reveal_strlit(" -");
    let n = (command_prefix(kind).len() + 4 + serial.len() + 2) as int;
    assert(set_command(kind, serial, port, Direction::Up)[n] == 'u');
    assert(set_command(kind, serial, port, Direction::Down)[n] == 'd');
}

/// The listing command line is no switch command line.
pub proof fn lemma_listing_is_no_switch(
    kind: HubKind,
    serial: Seq<char>,
    port: Seq<char>,
    d: Direction,
)
    ensures
        list_command(kind) != set_command(kind, serial, port, d),
{
    reveal_strlit(" -s ");
    reveal_strlit(" -l ");
    let n = (command_prefix(kind).len() + 2) as int;
    assert(list_command(kind)[n] == 'l');
    assert(set_command(kind, serial, port, d)[n] == 's');
}

} // verus!
