//! The power control engine.
//!
//! A power operation alternates between running a hub tool and deciding what
//! to do with its output.  [`PowerSession`] holds the decisions: each call of
//! [`PowerSession::step`] takes the reply to the previous action and returns
//! the next one.  The caller runs the commands (through `sh -c`), sleeps when
//! asked, and stops at [`HubAction::Done`].
use vstd::prelude::*;
use vstd::string::*;

use crate::boards::{first_named, lookup, opt_view, Board, BoardEntry, BoardView, Config, Field};
use crate::console::{
    boot_session, boot_steps, shutdown_session, shutdown_steps, ConsoleSession, ConsoleView,
};
use crate::error::{ConfigParsingError, PowerError};
use crate::hub::{
    attached, get_command, get_command_line, is_attached, kind_of, list_command, list_command_line,
    lemma_directions_differ, lemma_listing_is_no_switch, parse_port_state, port_state, resolve_kind, set_command, set_command_line, Direction, HubKind,
};

verus! {

/// How long a board's power rail is left off during a reboot.
pub const SETTLE_DELAY_MS: u64 = 1000;

/// The operations the engine performs on one board.
#[derive(Debug, Clone, Copy, PartialEq, Eq, Structural)]
pub enum PowerOp {
    On,
    Off,
    Reboot,
    Query,
}

/// What a finished operation reports.
#[derive(Debug, Clone, Copy, PartialEq, Eq, Structural)]
pub enum Outcome {
    /// The port was switched.
    Switched,
    /// The port's state was read: powered or not.
    Powered(bool),
}

/// What the engine does after listing the hubs.
#[derive(Debug, Clone, Copy, PartialEq, Eq, Structural)]
pub enum Stage {
    Switch(Direction),
    Query,
}

/// Where a session stands.
#[derive(Debug, Clone, Copy)]
pub enum Phase {
    /// Nothing has been run yet.
    Ready,
    /// The hub listing was asked for.
    Listing(HubKind, Stage),
    /// The port was asked to switch.
    Switching(HubKind, Direction),
    /// A reboot waits for the power rail to discharge.
    Settling(HubKind),
    /// The port's state was asked for.
    Querying(HubKind),
    /// The operation is over.
    Finished(Result<Outcome, PowerError>),
}

/// The caller's report on the last action: whether the command could be
/// started, whether it exited with success, and what it printed.  After a
/// sleep, or before the first action, its contents are not read.
#[derive(Debug)]
pub struct Reply {
    pub started: bool,
    pub success: bool,
    pub stdout: Vec<u8>,
}

impl Reply {
    /// A reply that carries nothing, for the first step and after a sleep.
    pub fn nothing() -> (r: Reply)
        ensures
            !r.started,
            !r.success,
            r.stdout@.len() == 0,
    {
        Reply { started: false, success: false, stdout: Vec::new() }
    }

    /// The reply for a command that ran.
    pub fn ran(success: bool, stdout: Vec<u8>) -> (r: Reply)
        ensures
            r.started,
            r.success == success,
            r.stdout@ == stdout@,
    {
        Reply { started: true, success, stdout }
    }
}

/// What the caller is asked to do next.
#[derive(Debug)]
pub enum HubAction {
    /// Run this command line and report how it went.
    Run(String),
    /// Sleep this many milliseconds.
    Sleep(u64),
    /// The operation is over, with this result.
    Done(Result<Outcome, PowerError>),
}

/// The contents of a [`HubAction`].
pub enum Act {
    Run(Seq<char>),
    Sleep(u64),
    Done(Result<Outcome, PowerError>),
}

impl View for HubAction {
    type V = Act;

    open spec fn view(&self) -> Act {
        match self {
            HubAction::Run(c) => Act::Run(c@),
            HubAction::Sleep(ms) => Act::Sleep(*ms),
            HubAction::Done(r) => Act::Done(*r),
        }
    }
}

/// One power operation on one board, in progress.
#[derive(Debug)]
pub struct PowerSession {
    op: PowerOp,
    name: String,
    serial: String,
    port: String,
    power_source: String,
    phase: Phase,
}

/// The contents of a [`PowerSession`].
pub struct SessionView {
    pub op: PowerOp,
    pub name: Seq<char>,
    pub serial: Seq<char>,
    pub port: Seq<char>,
    pub power_source: Seq<char>,
    pub phase: Phase,
}

impl View for PowerSession {
    type V = SessionView;

    closed spec fn view(&self) -> SessionView {
        SessionView {
            op: self.op,
            name: self.name@,
            serial: self.serial@,
            port: self.port@,
            power_source: self.power_source@,
            phase: self.phase,
        }
    }
}

/// What the engine does once the board's hub is known to be attached.
pub open spec fn first_stage(op: PowerOp) -> Stage {
    match op {
        PowerOp::On => Stage::Switch(Direction::Up),
        PowerOp::Off => Stage::Switch(Direction::Down),
        PowerOp::Reboot => Stage::Switch(Direction::Down),
        PowerOp::Query => Stage::Query,
    }
}

/// A session about to perform `op` on board `b`.
pub open spec fn initial(op: PowerOp, b: BoardView) -> SessionView {
    SessionView {
        op,
        name: b.name,
        serial: b.serial,
        port: b.port,
        power_source: b.power_source,
        phase: Phase::Ready,
    }
}

impl SessionView {
    pub open spec fn with_phase(self, phase: Phase) -> SessionView {
        SessionView { phase, ..self }
    }

    /// Ends the session with a result, and reports it.
    pub open spec fn finish(self, r: Result<Outcome, PowerError>) -> (SessionView, Act) {
        (self.with_phase(Phase::Finished(r)), Act::Done(r))
    }
}

/// One transition of a session: the next state and the action for the caller,
/// given the reply to the previous action.
///
/// - The hub family is resolved before anything runs: an unknown one ends the
///   session with `UnsupportedHubKind`, an incomplete board with
///   `ConfigError`.
/// - Every operation first lists the attached hubs; a hub missing from the
///   listing ends it with `BoardNotAttached`.
/// - A command that could not be started ends it with
///   `HubToolExecutionError`, a switch that failed with `HubOperationFailed`.
/// - A reboot switches down, sleeps `SETTLE_DELAY_MS`, lists again and
///   switches up.
pub open spec fn next(s: SessionView, r: Reply) -> (SessionView, Act) {
    match s.phase {
        Phase::Ready => match kind_of(s.power_source) {
            None => s.finish(Err(PowerError::UnsupportedHubKind)),
            Some(k) => if s.serial.len() == 0 || s.port.len() == 0 {
                s.finish(Err(PowerError::ConfigError))
            } else {
                (s.with_phase(Phase::Listing(k, first_stage(s.op))), Act::Run(list_command(k)))
            },
        },
        Phase::Listing(k, stage) => if !r.started {
            s.finish(Err(PowerError::HubToolExecutionError))
        } else if !attached(r.stdout@, s.serial) {
            s.finish(Err(PowerError::BoardNotAttached))
        } else {
            match stage {
                Stage::Switch(d) => (
                    s.with_phase(Phase::Switching(k, d)),
                    Act::Run(set_command(k, s.serial, s.port, d)),
                ),
                Stage::Query => (
                    s.with_phase(Phase::Querying(k)),
                    Act::Run(get_command(k, s.serial, s.port)),
                ),
            }
        },
        Phase::Switching(k, d) => if !r.started {
            s.finish(Err(PowerError::HubToolExecutionError))
        } else if !r.success {
            s.finish(Err(PowerError::HubOperationFailed))
        } else if s.op == PowerOp::Reboot && d == Direction::Down {
            (s.with_phase(Phase::Settling(k)), Act::Sleep(SETTLE_DELAY_MS))
        } else {
            s.finish(Ok(Outcome::Switched))
        },
        Phase::Settling(k) => (
            s.with_phase(Phase::Listing(k, Stage::Switch(Direction::Up))),
            Act::Run(list_command(k)),
        ),
        Phase::Querying(k) => if !r.started {
            s.finish(Err(PowerError::HubToolExecutionError))
        } else {
            match port_state(r.success, r.stdout@) {
                Ok(on) => s.finish(Ok(Outcome::Powered(on))),
                Err(e) => s.finish(Err(e)),
            }
        },
        Phase::Finished(res) => (s, Act::Done(res)),
    }
}

/// The actions a session produces when fed a sequence of replies, one action
/// per reply.
pub open spec fn run(s: SessionView, replies: Seq<Reply>) -> Seq<Act>
    decreases replies.len(),
{
    if replies.len() == 0 {
        Seq::empty()
    } else {
        let (s2, a) = next(s, replies[0]);
        seq![a] + run(s2, replies.drop_first())
    }
}

impl PowerSession {
    /// Starts `op` on a board.
    pub fn new(op: PowerOp, board: &Board) -> (r: PowerSession)
        ensures
            r@ == initial(op, board@),
    {
        PowerSession {
            op,
            name: board.name.clone(),
            serial: board.yk_serial_number.clone(),
            port: board.yk_port_number.clone(),
            power_source: board.power_source.clone(),
            phase: Phase::Ready,
        }
    }

    /// Starts `op` on the board with these hub parameters.
    pub fn from_parts(
        op: PowerOp,
        board_name: &str,
        serial_number: &str,
        port_number: &str,
        power_source: &str,
    ) -> (r: PowerSession)
        ensures
            r@ == (SessionView {
                op,
                name: board_name@,
                serial: serial_number@,
                port: port_number@,
                power_source: power_source@,
                phase: Phase::Ready,
            }),
    {
        PowerSession {
            op,
            name: String::from_str(board_name),
            serial: String::from_str(serial_number),
            port: String::from_str(port_number),
            power_source: String::from_str(power_source),
            phase: Phase::Ready,
        }
    }

    /// The operation this session performs.
    pub fn op(&self) -> (r: PowerOp)
        ensures
            r == self@.op,
    {
        self.op
    }

    /// The name of the board the session acts on.
    pub fn board_name(&self) -> (r: &str)
        ensures
            r@ == self@.name,
    {
        self.name.as_str()
    }

    /// The result, once the session is over.
    pub fn result(&self) -> (r: Option<Result<Outcome, PowerError>>)
        ensures
            match self@.phase {
                Phase::Finished(res) => r == Some(res),
                _ => r is None,
            },
    {
        match self.phase {
            Phase::Finished(res) => Some(res),
            _ => None,
        }
    }

    fn finish(&mut self, res: Result<Outcome, PowerError>) -> (r: HubAction)
        ensures
            (final(self)@, r@) == old(self)@.finish(res),
    {
        self.phase = Phase::Finished(res);
        HubAction::Done(res)
    }

    /// Takes the reply to the previous action and returns the next action.
    pub fn step(&mut self, reply: &Reply) -> (r: HubAction)
        ensures
            (final(self)@, r@) == next(old(self)@, *reply),
    {
        match self.phase {
            Phase::Ready => match resolve_kind(self.power_source.as_str()) {
                None => self.finish(Err(PowerError::UnsupportedHubKind)),
                Some(k) => {
                    if self.serial.as_str().is_empty() || self.port.as_str().is_empty() {
                        self.finish(Err(PowerError::ConfigError))
                    } else {
                        let stage = match self.op {
                            PowerOp::On => Stage::Switch(Direction::Up),
                            PowerOp::Off => Stage::Switch(Direction::Down),
                            PowerOp::Reboot => Stage::Switch(Direction::Down),
                            PowerOp::Query => Stage::Query,
                        };
                        self.phase = Phase::Listing(k, stage);
                        HubAction::Run(list_command_line(k))
                    }
                },
            },
            Phase::Listing(k, stage) => {
                if !reply.started {
                    self.finish(Err(PowerError::HubToolExecutionError))
                } else if !is_attached(reply.stdout.as_slice(), self.serial.as_str()) {
                    self.finish(Err(PowerError::BoardNotAttached))
                } else {
                    match stage {
                        Stage::Switch(d) => {
                            self.phase = Phase::Switching(k, d);
                            HubAction::Run(
                                set_command_line(k, self.serial.as_str(), self.port.as_str(), d),
                            )
                        },
                        Stage::Query => {
                            self.phase = Phase::Querying(k);
                            HubAction::Run(
                                get_command_line(k, self.serial.as_str(), self.port.as_str()),
                            )
                        },
                    }
                }
            },
            Phase::Switching(k, d) => {
                if !reply.started {
                    self.finish(Err(PowerError::HubToolExecutionError))
                } else if !reply.success {
                    self.finish(Err(PowerError::HubOperationFailed))
                } else if self.op == PowerOp::Reboot && d == Direction::Down {
                    self.phase = Phase::Settling(k);
                    HubAction::Sleep(SETTLE_DELAY_MS)
                } else {
                    self.finish(Ok(Outcome::Switched))
                }
            },
            Phase::Settling(k) => {
                self.phase = Phase::Listing(k, Stage::Switch(Direction::Up));
                HubAction::Run(list_command_line(k))
            },
            Phase::Querying(k) => {
                if !reply.started {
                    self.finish(Err(PowerError::HubToolExecutionError))
                } else {
                    match parse_port_state(reply.success, reply.stdout.as_slice()) {
                        Ok(on) => self.finish(Ok(Outcome::Powered(on))),
                        Err(e) => self.finish(Err(e)),
                    }
                }
            },
            Phase::Finished(res) => HubAction::Done(res),
        }
    }
}

} // verus!

verus! {

/// The state of a session after it has taken the first `n` replies.
pub open spec fn after(s: SessionView, replies: Seq<Reply>, n: nat) -> SessionView
    decreases n,
{
    if n == 0 {
        s
    } else {
        next(after(s, replies, (n - 1) as nat), replies[n - 1]).0
    }
}

proof fn lemma_after_shift(s: SessionView, replies: Seq<Reply>, n: nat)
    requires
        n < replies.len(),
    ensures
        after(s, replies, n + 1) == after(next(s, replies[0]).0, replies.drop_first(), n),
    decreases n,
{
    let s1 = next(s, replies[0]).0;
    let rest = replies.drop_first();
    if n > 0 {
        lemma_after_shift(s, replies, (n - 1) as nat);
        assert(rest[n - 1] == replies[n as int]);
        assert(after(s1, rest, n) == next(after(s1, rest, (n - 1) as nat), rest[n - 1]).0);
    } else {
        assert(after(s, replies, 0) == s);
        assert(after(s1, rest, 0) == s1);
    }
    assert(after(s, replies, n + 1) == next(after(s, replies, n), replies[n as int]).0);
}

proof fn lemma_after_one(s: SessionView, replies: Seq<Reply>)
    requires
        replies.len() > 0,
    ensures
        after(s, replies, 1) == next(s, replies[0]).0,
{
    assert(after(s, replies, 0) == s);
}

/// The `i`-th action of a run is the one taken in the state reached after
/// the first `i` replies.
pub proof fn lemma_run_index(s: SessionView, replies: Seq<Reply>, i: int)
    requires
        0 <= i < replies.len(),
    ensures
        run(s, replies).len() == replies.len(),
        run(s, replies)[i] == next(after(s, replies, i as nat), replies[i]).1,
    decreases replies.len(),
{
    let s1 = next(s, replies[0]).0;
    let rest = replies.drop_first();
    if i > 0 {
        lemma_run_index(s1, rest, i - 1);
        lemma_after_shift(s, replies, (i - 1) as nat);
    } else {
        if rest.len() > 0 {
            lemma_run_index(s1, rest, 0);
        } else {
            assert(run(s1, rest) == Seq::<Act>::empty());
        }
    }
}

proof fn lemma_finished_stays(s: SessionView, replies: Seq<Reply>, n: nat, m: nat)
    requires
        after(s, replies, n).phase is Finished,
        n <= m <= replies.len(),
    ensures
        after(s, replies, m) == after(s, replies, n),
    decreases m - n,
{
    if m > n {
        lemma_finished_stays(s, replies, n, (m - 1) as nat);
    }
}

/// A board whose power source names no known hub family fails every
/// operation with `UnsupportedHubKind`, whatever the caller reports, and no
/// command is ever run for it.
pub proof fn lemma_unsupported_kind_runs_nothing(op: PowerOp, b: BoardView, replies: Seq<Reply>)
    requires
        kind_of(b.power_source) is None,
    ensures
        run(initial(op, b), replies).len() == replies.len(),
        forall|i: int|
            0 <= i < replies.len() ==> #[trigger] run(initial(op, b), replies)[i] == Act::Done(
                Err(PowerError::UnsupportedHubKind),
            ),
{
    let s = initial(op, b);
    assert forall|i: int| 0 <= i < replies.len() implies #[trigger] run(s, replies)[i] == Act::Done(
        Err(PowerError::UnsupportedHubKind),
    ) by {
        lemma_run_index(s, replies, i);
        lemma_after_one(s, replies);
        if i > 0 {
            lemma_finished_stays(s, replies, 1, i as nat);
        } else {
            assert(after(s, replies, 0) == s);
        }
    }
    if replies.len() > 0 {
        lemma_run_index(s, replies, 0);
    }
}

/// When the hub listing does not mention the board's hub, the operation
/// fails with `BoardNotAttached` and no switch or state command is run.
pub proof fn lemma_absent_board_not_attached(op: PowerOp, b: BoardView, replies: Seq<Reply>)
    requires
        kind_of(b.power_source) is Some,
        b.complete(),
        replies.len() >= 2,
        replies[1].started,
        !attached(replies[1].stdout@, b.serial),
    ensures
        run(initial(op, b), replies)[0] == Act::Run(list_command(kind_of(b.power_source)->Some_0)),
        forall|i: int|
            1 <= i < replies.len() ==> #[trigger] run(initial(op, b), replies)[i] == Act::Done(
                Err(PowerError::BoardNotAttached),
            ),
{
    let s = initial(op, b);
    lemma_run_index(s, replies, 0);
    lemma_after_one(s, replies);
    assert(after(s, replies, 0) == s);
    assert(after(s, replies, 2) == next(after(s, replies, 1), replies[1]).0);
    assert forall|i: int| 1 <= i < replies.len() implies #[trigger] run(s, replies)[i] == Act::Done(
        Err(PowerError::BoardNotAttached),
    ) by {
        lemma_run_index(s, replies, i);
        assert(after(s, replies, 1).phase is Listing);
        if i > 1 {
            lemma_finished_stays(s, replies, 2, i as nat);
        }
    }
}

/// Switching a board off does not look at its present state: with its hub
/// listed and the tool succeeding, the operation succeeds, and it succeeds
/// again when it is repeated.
pub proof fn lemma_power_off_repeatable(b: BoardView, first: Seq<Reply>, second: Seq<Reply>)
    requires
        kind_of(b.power_source) is Some,
        b.complete(),
        first.len() == 3,
        second.len() == 3,
        first[1].started && attached(first[1].stdout@, b.serial),
        first[2].started && first[2].success,
        second[1].started && attached(second[1].stdout@, b.serial),
        second[2].started && second[2].success,
    ensures
        run(initial(PowerOp::Off, b), first)[2] == Act::Done(Ok(Outcome::Switched)),
        run(initial(PowerOp::Off, b), second)[2] == Act::Done(Ok(Outcome::Switched)),
{
    let s = initial(PowerOp::Off, b);
    lemma_run_index(s, first, 2);
    lemma_run_index(s, second, 2);
    lemma_after_one(s, first);
    lemma_after_one(s, second);
    assert(after(s, first, 2) == next(after(s, first, 1), first[1]).0);
    assert(after(s, second, 2) == next(after(s, second, 1), second[1]).0);
}

/// The phases a reboot passes through, by the number of replies taken.
proof fn lemma_reboot_shape(b: BoardView, replies: Seq<Reply>, n: nat)
    requires
        kind_of(b.power_source) is Some,
        n <= replies.len(),
    ensures
        ({
            let k = kind_of(b.power_source)->Some_0;
            let s = initial(PowerOp::Reboot, b);
            let ph = after(s, replies, n).phase;
            &&& after(s, replies, n) == s.with_phase(ph)
            &&& n == 0 ==> ph is Ready
            &&& n == 1 ==> ph is Finished || ph == Phase::Listing(k, Stage::Switch(Direction::Down))
            &&& n == 2 ==> ph is Finished || ph == Phase::Switching(k, Direction::Down)
            &&& n == 3 ==> ph is Finished || (ph == Phase::Settling(k) && replies[2].started
                && replies[2].success)
            &&& n == 4 ==> ph is Finished || ph == Phase::Listing(k, Stage::Switch(Direction::Up))
            &&& n == 5 ==> ph is Finished || ph == Phase::Switching(k, Direction::Up)
            &&& n >= 6 ==> ph is Finished
        }),
    decreases n,
{
    let s = initial(PowerOp::Reboot, b);
    if n == 0 {
        assert(after(s, replies, 0) == s);
        assert(s.with_phase(Phase::Ready) == s);
    } else {
        lemma_reboot_shape(b, replies, (n - 1) as nat);
        assert(after(s, replies, n) == next(after(s, replies, (n - 1) as nat), replies[n - 1]).0);
    }
}

/// A reboot runs at most one switch-down and at most one switch-up command
/// for the board, the down before the up, and the up only once the down has
/// reported success.
pub proof fn lemma_reboot_off_then_on(b: BoardView, replies: Seq<Reply>)
    requires
        kind_of(b.power_source) is Some,
    ensures
        ({
            let k = kind_of(b.power_source)->Some_0;
            let acts = run(initial(PowerOp::Reboot, b), replies);
            let down = Act::Run(set_command(k, b.serial, b.port, Direction::Down));
            let up = Act::Run(set_command(k, b.serial, b.port, Direction::Up));
            &&& acts.len() == replies.len()
            &&& forall|i: int, j: int|
                0 <= i < j < acts.len() && #[trigger] acts[i] == down ==> #[trigger] acts[j] != down
            &&& forall|i: int, j: int|
                0 <= i < j < acts.len() && #[trigger] acts[i] == up ==> #[trigger] acts[j] != up
            &&& forall|j: int|
                0 <= j < acts.len() && #[trigger] acts[j] == up ==> exists|i: int|
                    0 <= i < j && #[trigger] acts[i] == down && replies[i + 1].started
                        && replies[i + 1].success
        }),
{
    let k = kind_of(b.power_source)->Some_0;
    let s = initial(PowerOp::Reboot, b);
    let acts = run(s, replies);
    let down = Act::Run(set_command(k, b.serial, b.port, Direction::Down));
    let up = Act::Run(set_command(k, b.serial, b.port, Direction::Up));
    lemma_directions_differ(k, b.serial, b.port);
    lemma_listing_is_no_switch(k, b.serial, b.port, Direction::Down);
    lemma_listing_is_no_switch(k, b.serial, b.port, Direction::Up);
    if replies.len() == 0 {
        assert(acts == Seq::<Act>::empty());
    } else {
        lemma_run_index(s, replies, 0);
    }
    assert forall|i: int| 0 <= i < acts.len() implies (#[trigger] acts[i] == down ==> i == 1) && (acts[i] == up
        ==> i == 4 && acts[1] == down && replies[2].started && replies[2].success) by {
        lemma_run_index(s, replies, i);
        lemma_reboot_shape(b, replies, i as nat);
        if i >= 1 {
            lemma_reboot_shape(b, replies, 1);
            lemma_run_index(s, replies, 1);
        }
        if i >= 2 {
            lemma_reboot_shape(b, replies, 2);
            assert(after(s, replies, 2) == next(after(s, replies, 1), replies[1]).0);
        }
        if i >= 3 {
            lemma_reboot_shape(b, replies, 3);
            assert(after(s, replies, 3) == next(after(s, replies, 2), replies[2]).0);
        }
        if i >= 4 {
            lemma_reboot_shape(b, replies, 4);
            assert(after(s, replies, 4) == next(after(s, replies, 3), replies[3]).0);
        }
    }
}

/// What a board offers to read its power state.
pub trait Status: View<V = BoardView> {
    /// A session that reads whether the board is powered.
    fn is_powered(&self) -> (r: PowerSession)
        ensures
            r@ == initial(PowerOp::Query, self@),
    ;
}

/// What a board offers to change its power state and watch its console.
pub trait Ops: View<V = BoardView> {
    /// A session that switches the board off.
    fn power_off(&self) -> (r: PowerSession)
        ensures
            r@ == initial(PowerOp::Off, self@),
    ;

    /// A session that switches the board on.
    fn power_on(&self) -> (r: PowerSession)
        ensures
            r@ == initial(PowerOp::On, self@),
    ;

    /// A session that switches the board off, waits, and switches it on.
    fn reboot(&self) -> (r: PowerSession)
        ensures
            r@ == initial(PowerOp::Reboot, self@),
    ;

    /// A console session that proves the board booted; fails when the board
    /// record is incomplete or the board has no console.
    fn expect_boot(&self) -> (r: Result<ConsoleSession, ConfigParsingError>)
        ensures
            match r {
                Ok(c) => self@.complete() && self@.uart is Some && c@ == (ConsoleView {
                    steps: boot_steps(),
                    next: 0,
                    buffer: Seq::empty(),
                    failed: None,
                }),
                Err(e) => if !self@.complete() {
                    e@ == "Board record is incomplete"@
                } else {
                    self@.uart is None && e@ == "No uart config found"@
                },
            },
    ;

    /// A console session that shuts the board down and proves it halted;
    /// fails when the board record is incomplete or the board has no console.
    fn expect_shutdown(&self) -> (r: Result<ConsoleSession, ConfigParsingError>)
        ensures
            match r {
                Ok(c) => self@.complete() && self@.uart is Some && c@ == (ConsoleView {
                    steps: shutdown_steps(),
                    next: 0,
                    buffer: Seq::empty(),
                    failed: None,
                }),
                Err(e) => if !self@.complete() {
                    e@ == "Board record is incomplete"@
                } else {
                    self@.uart is None && e@ == "No uart config found"@
                },
            },
    ;
}

impl Status for Board {
    fn is_powered(&self) -> (r: PowerSession) {
        PowerSession::new(PowerOp::Query, self)
    }
}

impl Ops for Board {
    fn power_off(&self) -> (r: PowerSession) {
        PowerSession::new(PowerOp::Off, self)
    }

    fn power_on(&self) -> (r: PowerSession) {
        PowerSession::new(PowerOp::On, self)
    }

    fn reboot(&self) -> (r: PowerSession) {
        PowerSession::new(PowerOp::Reboot, self)
    }

    fn expect_boot(&self) -> (r: Result<ConsoleSession, ConfigParsingError>) {
        if !self.is_complete() {
            return Err(ConfigParsingError::new("Board record is incomplete"));
        }
        match &self.primary_uart {
            Some(_) => Ok(boot_session()),
            None => Err(ConfigParsingError::new("No uart config found")),
        }
    }

    fn expect_shutdown(&self) -> (r: Result<ConsoleSession, ConfigParsingError>) {
        if !self.is_complete() {
            return Err(ConfigParsingError::new("Board record is incomplete"));
        }
        match &self.primary_uart {
            Some(_) => Ok(shutdown_session()),
            None => Err(ConfigParsingError::new("No uart config found")),
        }
    }
}

/// A session that switches off the board with these hub parameters.
pub fn power_off(board_name: &str, serial_number: &str, port_number: &str, power_source: &str) -> (r:
    PowerSession)
    ensures
        r@ == (SessionView {
            op: PowerOp::Off,
            name: board_name@,
            serial: serial_number@,
            port: port_number@,
            power_source: power_source@,
            phase: Phase::Ready,
        }),
{
    PowerSession::from_parts(PowerOp::Off, board_name, serial_number, port_number, power_source)
}

/// A session that switches on the board with these hub parameters.
pub fn power_on(board_name: &str, serial_number: &str, port_number: &str, power_source: &str) -> (r:
    PowerSession)
    ensures
        r@ == (SessionView {
            op: PowerOp::On,
            name: board_name@,
            serial: serial_number@,
            port: port_number@,
            power_source: power_source@,
            phase: Phase::Ready,
        }),
{
    PowerSession::from_parts(PowerOp::On, board_name, serial_number, port_number, power_source)
}

/// A session that reboots the board with these hub parameters.
pub fn reboot(board_name: &str, serial_number: &str, port_number: &str, power_source: &str) -> (r:
    PowerSession)
    ensures
        r@ == (SessionView {
            op: PowerOp::Reboot,
            name: board_name@,
            serial: serial_number@,
            port: port_number@,
            power_source: power_source@,
            phase: Phase::Ready,
        }),
{
    PowerSession::from_parts(PowerOp::Reboot, board_name, serial_number, port_number, power_source)
}

/// A session that reads whether a board is powered.
pub fn is_powered(board: &Board) -> (r: PowerSession)
    ensures
        r@ == initial(PowerOp::Query, board@),
{
    PowerSession::new(PowerOp::Query, board)
}

/// A session that switches a board to the other state than `powered`.
pub fn toggle_power_state(board: &Board, powered: bool) -> (r: PowerSession)
    ensures
        r@ == initial(if powered { PowerOp::Off } else { PowerOp::On }, board@),
{
    if !powered {
        PowerSession::new(PowerOp::On, board)
    } else {
        PowerSession::new(PowerOp::Off, board)
    }
}

/// The session for `op` on the board the configuration records under a
/// name, or the reason there is no such board.
pub open spec fn session_for(op: PowerOp, config: Config, board_name: Seq<char>, r: Result<
    PowerSession,
    ConfigParsingError,
>) -> bool {
    match lookup(config, board_name) {
        Ok(b) => r is Ok && r->Ok_0@ == initial(op, b),
        Err(m) => r is Err && r->Err_0@ == m,
    }
}

fn board_session(op: PowerOp, board_name: &str, config: &Config) -> (r: Result<
    PowerSession,
    ConfigParsingError,
>)
    ensures
        session_for(op, *config, board_name@, r),
{
    match crate::boards::get_board_from_config(board_name, config) {
        Ok(b) => Ok(PowerSession::new(op, &b)),
        Err(e) => Err(e),
    }
}

/// Looks a board up and starts switching it off.
pub fn power_off_board(board_name: &str, config: &Config) -> (r: Result<
    PowerSession,
    ConfigParsingError,
>)
    ensures
        session_for(PowerOp::Off, *config, board_name@, r),
{
    board_session(PowerOp::Off, board_name, config)
}

/// Looks a board up and starts switching it on.
pub fn power_on_board(board_name: &str, config: &Config) -> (r: Result<
    PowerSession,
    ConfigParsingError,
>)
    ensures
        session_for(PowerOp::On, *config, board_name@, r),
{
    board_session(PowerOp::On, board_name, config)
}

/// Looks a board up and starts rebooting it.
pub fn reboot_board(board_name: &str, config: &Config) -> (r: Result<
    PowerSession,
    ConfigParsingError,
>)
    ensures
        session_for(PowerOp::Reboot, *config, board_name@, r),
{
    board_session(PowerOp::Reboot, board_name, config)
}

/// A registry entry that records board `b` field for field.
pub open spec fn describes(e: BoardEntry, b: BoardView) -> bool {
    &&& opt_view(e.name) == Some(b.name)
    &&& e.serial matches Field::Text(s) && s@ == b.serial
    &&& e.port matches Field::Text(p) && p@ == b.port
    &&& e.kind matches Field::Text(k) && k@ == b.power_source
}

/// A board described in the registry and read back from it keeps its hub
/// serial number, port and hub family, so every operation on it runs the
/// same command lines, byte for byte, as on the board described.
pub proof fn lemma_registry_round_trip(
    config: Config,
    b: BoardView,
    i: int,
    op: PowerOp,
    replies: Seq<Reply>,
)
    requires
        config.boards is Entries,
        b.complete(),
        first_named(config.boards->Entries_0@, b.name, i),
        describes(config.boards->Entries_0@[i], b),
    ensures
        lookup(config, b.name) is Ok,
        lookup(config, b.name)->Ok_0.serial == b.serial,
        lookup(config, b.name)->Ok_0.port == b.port,
        lookup(config, b.name)->Ok_0.power_source == b.power_source,
        run(initial(op, lookup(config, b.name)->Ok_0), replies) == run(initial(op, b), replies),
{
    let v = config.boards->Entries_0@;
    let k = choose|k: int| first_named(v, b.name, k);
    assert(first_named(v, b.name, k));
    if k < i {
        assert(opt_view(v[k].name) != Some(b.name));
    }
    if k > i {
        assert(opt_view(v[i].name) != Some(b.name));
    }
    let b2 = lookup(config, b.name)->Ok_0;
    assert(initial(op, b2) == initial(op, b));
}

} // verus!
