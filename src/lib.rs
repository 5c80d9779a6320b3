//! Power control and boot verification for lab test boards.
//!
//! Boards are switched through USB power hubs driven by their vendor
//! command-line tools, and watched over their serial consoles.  The library
//! holds the decisions; the caller runs the processes and the serial port.
use vstd::prelude::*;

pub mod boards;
pub mod console;
pub mod cursor;
pub mod error;
pub mod hub;
pub mod power;
pub mod sweep;
pub mod text;

pub use boards::{
    get_all_boards_from_config, get_board_from_config, populate_board, Board, BoardEntry,
    BoardsSection, Config, Field,
};
pub use console::{
    boot_session, shutdown_session, ConsoleSession, ConsoleStep, SessionStatus, CONSOLE_BAUD_RATE,
    CONSOLE_TIMEOUT_MS,
};
pub use cursor::ListCursor;
pub use error::{ConfigParsingError, ConsoleError, PowerError, YkmdError};
pub use hub::{format_command, Direction, HubKind};
pub use power::{
    is_powered, power_off, power_off_board, power_on, power_on_board, reboot, reboot_board,
    toggle_power_state, HubAction, Ops, Outcome, Phase, PowerOp, PowerSession, Reply, Status,
    SETTLE_DELAY_MS,
};
pub use sweep::{goodnight, Sweep};

verus! {

} // verus!
