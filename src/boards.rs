//! Boards and the registry that describes them.
//!
//! The registry is read from a configuration document of the form
//! `boards: { <name>: { serial, port, type, uart: { pattern, primary } } }`.
//! The caller parses the document; this module holds what was found under
//! each key and builds board records from it.
use vstd::prelude::*;
use vstd::string::*;

use crate::error::ConfigParsingError;
use crate::text::same_text;

verus! {

/// One physical board under test.
#[derive(Debug)]
pub struct Board {
    /// The board's name, its key in the registry.
    pub name: String,
    /// Serial number of the hub that powers the board.
    pub yk_serial_number: String,
    /// Port of that hub that the board is wired to.
    pub yk_port_number: String,
    /// Which hub family drives the hub (`usb` or `relay`).
    pub power_source: String,
    /// Device path of the board's serial console, when one is configured.
    pub primary_uart: Option<String>,
}

/// The contents of a [`Board`].
pub struct BoardView {
    pub name: Seq<char>,
    pub serial: Seq<char>,
    pub port: Seq<char>,
    pub power_source: Seq<char>,
    pub uart: Option<Seq<char>>,
}

pub open spec fn opt_view(s: Option<String>) -> Option<Seq<char>> {
    match s {
        Some(t) => Some(t@),
        None => None,
    }
}

impl View for Board {
    type V = BoardView;

    open spec fn view(&self) -> BoardView {
        BoardView {
            name: self.name@,
            serial: self.yk_serial_number@,
            port: self.yk_port_number@,
            power_source: self.power_source@,
            uart: opt_view(self.primary_uart),
        }
    }
}

impl BoardView {
    /// Every field that a power operation needs is filled in.
    pub open spec fn complete(self) -> bool {
        &&& self.power_source.len() > 0
        &&& self.serial.len() > 0
        &&& self.port.len() > 0
    }
}

impl Board {
    /// Tells whether every field that a power operation needs is filled in.
    pub fn is_complete(&self) -> (r: bool)
        ensures
            r == self@.complete(),
    {
        !self.power_source.as_str().is_empty() && !self.yk_serial_number.as_str().is_empty()
            && !self.yk_port_number.as_str().is_empty()
    }
}

/// What the configuration holds under one key of a board record.
#[derive(Debug)]
pub enum Field {
    /// The key is absent.
    Missing,
    /// The key holds something other than text.
    NotText,
    /// The key holds this text.
    Text(String),
}

/// One entry under `boards`, as found in the configuration.
#[derive(Debug)]
pub struct BoardEntry {
    /// The entry's key; `None` when the key is not text.
    pub name: Option<String>,
    pub serial: Field,
    pub port: Field,
    pub kind: Field,
    /// `uart.pattern`; missing when there is no `uart` mapping.
    pub uart_pattern: Field,
    /// `uart.primary`; missing when there is no `uart` mapping.
    pub uart_primary: Field,
}

/// What the configuration holds under `boards`.
#[derive(Debug)]
pub enum BoardsSection {
    Missing,
    NotMapping,
    /// The board entries, in the order of the document.
    Entries(Vec<BoardEntry>),
}

/// A parsed configuration document.
#[derive(Debug)]
pub struct Config {
    pub boards: BoardsSection,
}

/// The text in a required field, or the message for a field that is absent,
/// not text, or empty.
pub open spec fn read_field(f: Field, missing: Seq<char>, wrong: Seq<char>, empty: Seq<char>) -> Result<
    Seq<char>,
    Seq<char>,
> {
    match f {
        Field::Missing => Err(missing),
        Field::NotText => Err(wrong),
        Field::Text(s) => if s@.len() == 0 {
            Err(empty)
        } else {
            Ok(s@)
        },
    }
}

/// The console path for a board: `/dev/serial/by-id/<pattern>-<primary>`,
/// when the entry names both parts.
pub open spec fn uart_path(e: BoardEntry) -> Option<Seq<char>> {
    match (e.uart_pattern, e.uart_primary) {
        (Field::Text(p), Field::Text(q)) => Some("/dev/serial/by-id/"@ + p@ + "-"@ + q@),
        _ => None,
    }
}

/// The board that an entry describes, or the message of the first field that
/// is missing, not text or empty (serial, then port, then type).  A console path that cannot be
/// built leaves the board without one.
pub open spec fn board_of_entry(name: Seq<char>, e: BoardEntry) -> Result<BoardView, Seq<char>> {
    match read_field(
        e.serial,
        "No serial number found"@,
        "Serial number was not a string"@,
        "Serial number was empty"@,
    ) {
        Err(m) => Err(m),
        Ok(serial) => match read_field(
            e.port,
            "No port number found"@,
            "Port number was not a string"@,
            "Port number was empty"@,
        ) {
            Err(m) => Err(m),
            Ok(port) => match read_field(
                e.kind,
                "No type found"@,
                "Type was not a string"@,
                "Type was empty"@,
            ) {
                Err(m) => Err(m),
                Ok(kind) => Ok(
                    BoardView { name, serial, port, power_source: kind, uart: uart_path(e) },
                ),
            },
        },
    }
}

/// The view of a result that carries a board.
pub open spec fn board_result(r: Result<Board, ConfigParsingError>) -> Result<BoardView, Seq<char>> {
    match r {
        Ok(b) => Ok(b@),
        Err(e) => Err(e@),
    }
}

/// `i` is the first entry named `name`.
pub open spec fn first_named(entries: Seq<BoardEntry>, name: Seq<char>, i: int) -> bool {
    &&& 0 <= i < entries.len()
    &&& opt_view(entries[i].name) == Some(name)
    &&& forall|j: int| 0 <= j < i ==> opt_view(#[trigger] entries[j].name) != Some(name)
}

/// The board the configuration records under `name`, or the message saying
/// why there is none.
pub open spec fn lookup(cfg: Config, name: Seq<char>) -> Result<BoardView, Seq<char>> {
    match cfg.boards {
        BoardsSection::Missing => Err("No boards found"@),
        BoardsSection::NotMapping => Err("Requested board not found"@),
        BoardsSection::Entries(v) => if exists|i: int| first_named(v@, name, i) {
            board_of_entry(name, v@[choose|i: int| first_named(v@, name, i)])
        } else {
            Err("Requested board not found"@)
        },
    }
}

/// Every board of a list of entries, in order, or the message of the first
/// entry that is wrong.
pub open spec fn all_boards(entries: Seq<BoardEntry>) -> Result<Seq<BoardView>, Seq<char>>
    decreases entries.len(),
{
    if entries.len() == 0 {
        Ok(Seq::empty())
    } else {
        match all_boards(entries.drop_last()) {
            Err(m) => Err(m),
            Ok(bs) => match entries.last().name {
                None => Err("name was not a string"@),
                Some(n) => match board_of_entry(n@, entries.last()) {
                    Err(m) => Err(m),
                    Ok(b) => Ok(bs.push(b)),
                },
            },
        }
    }
}

/// Every board of a configuration, in order.
pub open spec fn registry_boards(cfg: Config) -> Result<Seq<BoardView>, Seq<char>> {
    match cfg.boards {
        BoardsSection::Entries(v) => all_boards(v@),
        _ => Err("No boards found"@),
    }
}

proof fn lemma_first_named_unique(entries: Seq<BoardEntry>, name: Seq<char>, i: int)
    requires
        first_named(entries, name, i),
    ensures
        (choose|k: int| first_named(entries, name, k)) == i,
{
    let k = choose|k: int| first_named(entries, name, k);
    if k < i {
        assert(opt_view(entries[k].name) != Some(name));
    }
    if k > i {
        assert(opt_view(entries[i].name) != Some(name));
    }
}

proof fn lemma_error_persists(entries: Seq<BoardEntry>, k: int)
    requires
        0 <= k <= entries.len(),
        all_boards(entries.subrange(0, k)) is Err,
    ensures
        all_boards(entries) == all_boards(entries.subrange(0, k)),
    decreases entries.len() - k,
{
    if k < entries.len() {
        let next = entries.subrange(0, k + 1);
        assert(next.drop_last() =~= entries.subrange(0, k));
        assert(next.subrange(0, k) =~= entries.subrange(0, k));
        lemma_error_persists(entries, k + 1);
    } else {
        assert(entries.subrange(0, k) =~= entries);
    }
}

fn read_text(f: &Field, missing: &str, wrong: &str, empty: &str) -> (r: Result<
    String,
    ConfigParsingError,
>)
    ensures
        match r {
            Ok(s) => read_field(*f, missing@, wrong@, empty@) == Ok::<Seq<char>, Seq<char>>(s@),
            Err(e) => read_field(*f, missing@, wrong@, empty@) == Err::<Seq<char>, Seq<char>>(e@),
        },
{
    match f {
        Field::Missing => Err(ConfigParsingError::new(missing)),
        Field::NotText => Err(ConfigParsingError::new(wrong)),
        Field::Text(s) => if s.as_str().is_empty() {
            Err(ConfigParsingError::new(empty))
        } else {
            Ok(s.clone())
        },
    }
}

fn read_uart(e: &BoardEntry) -> (r: Option<String>)
    ensures
        opt_view(r) == uart_path(*e),
{
    match (&e.uart_pattern, &e.uart_primary) {
        (Field::Text(p), Field::Text(q)) => {
            let mut s = String::from_str("/dev/serial/by-id/");
            s.append(p.as_str());
            s.append("-");
            s.append(q.as_str());
            Some(s)
        },
        _ => None,
    }
}

/// Builds the board that an entry describes, under the given name.
pub fn populate_board(name: &str, e: &BoardEntry) -> (r: Result<Board, ConfigParsingError>)
    ensures
        board_result(r) == board_of_entry(name@, *e),
{
    let serial = match read_text(
        &e.serial,
        "No serial number found",
        "Serial number was not a string",
        "Serial number was empty",
    ) {
        Ok(s) => s,
        Err(err) => return Err(err),
    };
    let port = match read_text(
        &e.port,
        "No port number found",
        "Port number was not a string",
        "Port number was empty",
    ) {
        Ok(s) => s,
        Err(err) => return Err(err),
    };
    let kind = match read_text(&e.kind, "No type found", "Type was not a string", "Type was empty") {
        Ok(s) => s,
        Err(err) => return Err(err),
    };
    Ok(
        Board {
            name: String::from_str(name),
            yk_serial_number: serial,
            yk_port_number: port,
            power_source: kind,
            primary_uart: read_uart(e),
        },
    )
}

/// Looks a board up by name.
pub fn get_board_from_config(board_name: &str, config: &Config) -> (r: Result<
    Board,
    ConfigParsingError,
>)
    ensures
        board_result(r) == lookup(*config, board_name@),
{
    match &config.boards {
        BoardsSection::Missing => Err(ConfigParsingError::new("No boards found")),
        BoardsSection::NotMapping => Err(ConfigParsingError::new("Requested board not found")),
        BoardsSection::Entries(v) => {
            let mut i: usize = 0;
            while i < v.len()
                invariant
                    config.boards == BoardsSection::Entries(*v),
                    i <= v@.len(),
                    forall|j: int| 0 <= j < i ==> opt_view(#[trigger] v@[j].name) != Some(board_name@),
                decreases v@.len() - i,
            {
                let named = match &v[i].name {
                    Some(n) => same_text(n.as_str(), board_name),
                    None => false,
                };
                if named {
                    assert(first_named(v@, board_name@, i as int));
                    proof {
                        lemma_first_named_unique(v@, board_name@, i as int);
                    }
                    return populate_board(board_name, &v[i]);
                }
                i = i + 1;
            }
            assert(!exists|k: int| first_named(v@, board_name@, k));
            Err(ConfigParsingError::new("Requested board not found"))
        },
    }
}

/// Every board of the configuration, in the order of the document.
pub fn get_all_boards_from_config(config: &Config) -> (r: Result<Vec<Board>, ConfigParsingError>)
    ensures
        match r {
            Ok(bs) => registry_boards(*config) == Ok::<Seq<BoardView>, Seq<char>>(
                bs@.map_values(|b: Board| b@),
            ),
            Err(e) => registry_boards(*config) == Err::<Seq<BoardView>, Seq<char>>(e@),
        },
{
    let v = match &config.boards {
        BoardsSection::Entries(v) => v,
        _ => return Err(ConfigParsingError::new("No boards found")),
    };
    let mut out: Vec<Board> = Vec::new();
    let mut i: usize = 0;
    assert(v@.subrange(0, 0) =~= Seq::<BoardEntry>::empty());
    assert(out@.map_values(|b: Board| b@) =~= Seq::<BoardView>::empty());
    while i < v.len()
        invariant
            config.boards == BoardsSection::Entries(*v),
            i <= v@.len(),
            all_boards(v@.subrange(0, i as int)) == Ok::<Seq<BoardView>, Seq<char>>(
                out@.map_values(|b: Board| b@),
            ),
        decreases v@.len() - i,
    {
        let ghost pre = v@.subrange(0, i as int);
        let ghost next = v@.subrange(0, i + 1);
        assert(next.drop_last() =~= pre);
        assert(next.last() == v@[i as int]);
        let name = match &v[i].name {
            Some(n) => n,
            None => {
                let e = ConfigParsingError::new("name was not a string");
                proof {
                    lemma_error_persists(v@, i + 1);
                }
                return Err(e);
            },
        };
        let b = match populate_board(name.as_str(), &v[i]) {
            Ok(b) => b,
            Err(e) => {
                proof {
                    lemma_error_persists(v@, i + 1);
                }
                return Err(e);
            },
        };
        let ghost old_out = out@;
        out.push(b);
        assert(out@.map_values(|b: Board| b@) =~= old_out.map_values(|b: Board| b@).push(b@));
        i = i + 1;
    }
    assert(v@.subrange(0, v@.len() as int) =~= v@);
    Ok(out)
}

} // verus!
