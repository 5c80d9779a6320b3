//! The fleet sweep: power every board of the registry down, one after the
//! other, whatever happens to each.
use vstd::prelude::*;

use crate::boards::{board_of_entry, populate_board, Board, BoardEntry, BoardView, BoardsSection, Config};
use crate::error::{ConfigParsingError, PowerError};
use crate::power::{
    initial, next, Act, HubAction, Outcome, PowerOp, PowerSession, Reply, SessionView,
};

verus! {

/// A sweep in progress: the boards, the one being powered down, the session
/// doing it, and what became of the boards before it.  A registry entry that
/// describes no usable board holds `None`.
#[derive(Debug)]
pub struct Sweep {
    boards: Vec<Option<Board>>,
    index: usize,
    current: Option<PowerSession>,
    outcomes: Vec<Result<Outcome, PowerError>>,
}

/// The contents of a [`Sweep`].
pub struct SweepView {
    pub boards: Seq<Option<BoardView>>,
    pub index: nat,
    pub current: Option<SessionView>,
    pub outcomes: Seq<Result<Outcome, PowerError>>,
}

pub open spec fn session_opt_view(s: Option<PowerSession>) -> Option<SessionView> {
    match s {
        Some(c) => Some(c@),
        None => None,
    }
}

pub open spec fn board_opt_view(b: Option<Board>) -> Option<BoardView> {
    match b {
        Some(b) => Some(b@),
        None => None,
    }
}

impl View for Sweep {
    type V = SweepView;

    closed spec fn view(&self) -> SweepView {
        SweepView {
            boards: self.boards@.map_values(|b: Option<Board>| board_opt_view(b)),
            index: self.index as nat,
            current: session_opt_view(self.current),
            outcomes: self.outcomes@,
        }
    }
}

impl SweepView {
    /// One outcome is recorded for each board already handled, and the
    /// board being handled has a session.
    pub open spec fn wf(self) -> bool {
        &&& self.index <= self.boards.len()
        &&& self.outcomes.len() == self.index
        &&& self.index < self.boards.len() && self.boards[self.index as int] is Some
            ==> self.current is Some
    }
}

/// The board a registry entry describes, if it describes a usable one.
pub open spec fn entry_board(e: BoardEntry) -> Option<BoardView> {
    match e.name {
        Some(n) => match board_of_entry(n@, e) {
            Ok(b) => Some(b),
            Err(_) => None,
        },
        None => None,
    }
}

/// Moves on to board `index`.  An entry without a usable board gets the
/// outcome `ConfigError`; a board gets its power-off started, and while that
/// session ends at once, its outcome is recorded and the sweep moves on
/// again.  Once every entry is handled the sweep reports success.
pub open spec fn start_from(
    boards: Seq<Option<BoardView>>,
    index: nat,
    outcomes: Seq<Result<Outcome, PowerError>>,
    current: Option<SessionView>,
    r: Reply,
) -> (SweepView, Act)
    decreases boards.len() - index,
{
    if index >= boards.len() {
        (SweepView { boards, index, current, outcomes }, Act::Done(Ok(Outcome::Switched)))
    } else {
        match boards[index as int] {
            None => start_from(
                boards,
                index + 1,
                outcomes.push(Err(PowerError::ConfigError)),
                current,
                r,
            ),
            Some(b) => {
                let (c, a) = next(initial(PowerOp::Off, b), r);
                match a {
                    Act::Done(res) => start_from(boards, index + 1, outcomes.push(res), Some(c), r),
                    _ => (SweepView { boards, index, current: Some(c), outcomes }, a),
                }
            },
        }
    }
}

/// One transition of a sweep, given the reply to its previous action.  A
/// board whose session ends, in success or failure, gets its outcome
/// recorded and the sweep goes on with the next board.
pub open spec fn sweep_next(w: SweepView, r: Reply) -> (SweepView, Act) {
    if w.index >= w.boards.len() {
        (w, Act::Done(Ok(Outcome::Switched)))
    } else {
        match (w.boards[w.index as int], w.current) {
            (Some(_), Some(cur)) => {
                let (c, a) = next(cur, r);
                match a {
                    Act::Done(res) => start_from(
                        w.boards,
                        w.index + 1,
                        w.outcomes.push(res),
                        Some(c),
                        r,
                    ),
                    _ => (SweepView { current: Some(c), ..w }, a),
                }
            },
            _ => start_from(w.boards, w.index, w.outcomes, w.current, r),
        }
    }
}

impl Sweep {
    /// A sweep over these registry entries, in this order; `None` stands for
    /// an entry that describes no usable board.
    pub fn new(boards: Vec<Option<Board>>) -> (r: Sweep)
        ensures
            r@.boards == boards@.map_values(|b: Option<Board>| board_opt_view(b)),
            r@.index == 0,
            r@.outcomes.len() == 0,
            r@.wf(),
            boards@.len() > 0 && boards@[0] is Some ==> r@.current == Some(
                initial(PowerOp::Off, boards@[0]->Some_0@),
            ),
    {
        let current = if boards.len() > 0 {
            match &boards[0] {
                Some(b) => Some(PowerSession::new(PowerOp::Off, b)),
                None => None,
            }
        } else {
            None
        };
        Sweep { boards, index: 0, current, outcomes: Vec::new() }
    }

    /// The board being powered down, if any is left and the entry describes
    /// one.
    pub fn current_board(&self) -> (r: Option<&Board>)
        ensures
            self@.index < self@.boards.len() && self@.boards[self@.index as int] is Some ==> r
                is Some && Some(r->Some_0@) == self@.boards[self@.index as int],
            self@.index >= self@.boards.len() || self@.boards[self@.index as int] is None ==> r
                is None,
    {
        if self.index < self.boards.len() {
            match &self.boards[self.index] {
                Some(b) => Some(b),
                None => None,
            }
        } else {
            None
        }
    }

    /// What became of each entry handled so far, in order.
    pub fn outcomes(&self) -> (r: &Vec<Result<Outcome, PowerError>>)
        ensures
            r@ == self@.outcomes,
    {
        &self.outcomes
    }

    fn start_next(&mut self, r: &Reply) -> (a: HubAction)
        ensures
            (final(self)@, a@) == start_from(
                old(self)@.boards,
                old(self)@.index,
                old(self)@.outcomes,
                old(self)@.current,
                *r,
            ),
    {
        let ghost goal = start_from(self@.boards, self@.index, self@.outcomes, self@.current, *r);
        let nothing = Reply::nothing();
        let mut result = HubAction::Done(Ok(Outcome::Switched));
        loop
            invariant
                self@.boards == old(self)@.boards,
                start_from(self@.boards, self@.index, self@.outcomes, self@.current, *r) == goal,
            ensures
                (self@, result@) == goal,
            decreases self@.boards.len() - self@.index,
        {
            if self.index >= self.boards.len() {
                result = HubAction::Done(Ok(Outcome::Switched));
                break;
            }
            assert(self@.boards[self.index as int] == board_opt_view(self.boards@[self.index as int]));
            let started = match &self.boards[self.index] {
                Some(b) => Some(PowerSession::new(PowerOp::Off, b)),
                None => None,
            };
            match started {
                None => {
                    self.outcomes.push(Err(PowerError::ConfigError));
                    self.index = self.index + 1;
                },
                Some(mut session) => {
                    assert(next(session@, nothing) == next(session@, *r));
                    let a = session.step(&nothing);
                    match a {
                        HubAction::Done(res) => {
                            self.outcomes.push(res);
                            self.current = Some(session);
                            self.index = self.index + 1;
                        },
                        _ => {
                            self.current = Some(session);
                            result = a;
                            break;
                        },
                    }
                },
            }
        }
        result
    }

    /// Takes the reply to the previous action and returns the next action.
    pub fn step(&mut self, reply: &Reply) -> (r: HubAction)
        ensures
            (final(self)@, r@) == sweep_next(old(self)@, *reply),
            old(self)@.wf() ==> final(self)@.wf(),
    {
        if self.index >= self.boards.len() {
            return HubAction::Done(Ok(Outcome::Switched));
        }
        assert(self@.boards[self.index as int] == board_opt_view(self.boards@[self.index as int]));
        let has_board = self.boards[self.index].is_some();
        if !has_board || self.current.is_none() {
            let r = self.start_next(reply);
            proof {
                if old(self)@.wf() {
                    lemma_start_from_wf(
                        old(self)@.boards,
                        old(self)@.index,
                        old(self)@.outcomes,
                        old(self)@.current,
                        *reply,
                    );
                }
            }
            return r;
        }
        let mut session = match self.current.take() {
            Some(s) => s,
            None => return HubAction::Done(Ok(Outcome::Switched)),
        };
        let a = session.step(reply);
        match a {
            HubAction::Done(res) => {
                self.outcomes.push(res);
                self.current = Some(session);
                self.index = self.index + 1;
                let r = self.start_next(reply);
                proof {
                    if old(self)@.wf() {
                        lemma_start_from_wf(
                            old(self)@.boards,
                            old(self)@.index + 1,
                            old(self)@.outcomes.push(res),
                            Some(session@),
                            *reply,
                        );
                    }
                }
                r
            },
            _ => {
                self.current = Some(session);
                a
            },
        }
    }
}

/// What moving on from entry `index` guarantees: the state is well formed,
/// earlier outcomes are kept, every entry without a board is recorded as a
/// `ConfigError`, and the sweep stops either at the end, reporting success,
/// or at a board whose power-off session it has just started.
proof fn lemma_start_from_wf(
    boards: Seq<Option<BoardView>>,
    index: nat,
    outcomes: Seq<Result<Outcome, PowerError>>,
    current: Option<SessionView>,
    r: Reply,
)
    requires
        index <= boards.len(),
        outcomes.len() == index,
    ensures
        ({
            let (w, a) = start_from(boards, index, outcomes, current, r);
            &&& w.wf()
            &&& w.boards == boards
            &&& w.index >= index
            &&& w.outcomes.subrange(0, index as int) == outcomes
            &&& forall|k: int|
                index <= k < w.index && boards[k] is None ==> w.outcomes[k] == Err::<
                    Outcome,
                    PowerError,
                >(PowerError::ConfigError)
            &&& a is Done ==> a == Act::Done(Ok(Outcome::Switched)) && w.index == boards.len()
            &&& w.index < boards.len() ==> boards[w.index as int] is Some && w.current == Some(
                next(initial(PowerOp::Off, boards[w.index as int]->Some_0), r).0,
            ) && a == next(initial(PowerOp::Off, boards[w.index as int]->Some_0), r).1
        }),
    decreases boards.len() - index,
{
    if index < boards.len() {
        let (nouts, ncur) = match boards[index as int] {
            None => (outcomes.push(Err(PowerError::ConfigError)), current),
            Some(b) => {
                let (c, a) = next(initial(PowerOp::Off, b), r);
                (outcomes.push(a->Done_0), Some(c))
            },
        };
        let moves_on = match boards[index as int] {
            None => true,
            Some(b) => next(initial(PowerOp::Off, b), r).1 is Done,
        };
        if moves_on {
            lemma_start_from_wf(boards, index + 1, nouts, ncur, r);
            let w = start_from(boards, index + 1, nouts, ncur, r).0;
            assert(start_from(boards, index, outcomes, current, r) == start_from(
                boards,
                index + 1,
                nouts,
                ncur,
                r,
            ));
            assert(w.outcomes.subrange(0, index as int) =~= w.outcomes.subrange(
                0,
                (index + 1) as int,
            ).subrange(0, index as int));
            assert(nouts.subrange(0, index as int) =~= outcomes);
            assert(w.outcomes[index as int] == w.outcomes.subrange(0, (index + 1) as int)[index as int]);
        } else {
            assert(outcomes.subrange(0, index as int) =~= outcomes);
        }
    } else {
        assert(outcomes.subrange(0, index as int) =~= outcomes);
    }
}

/// A sweep goes on whatever happens to a board: a board whose power-off
/// ends, in success or failure, gets its outcome recorded next to those of
/// the boards before it, an entry without a usable board is recorded as a
/// `ConfigError`, and the sweep moves on, starting the power-off of the next
/// board.  When the sweep reports that it is over, it reports success, and
/// every entry has an outcome.
pub proof fn lemma_sweep_never_fails(w: SweepView, r: Reply)
    requires
        w.wf(),
    ensures
        ({
            let (w2, a) = sweep_next(w, r);
            &&& w2.wf()
            &&& w2.boards == w.boards
            &&& w2.index >= w.index
            &&& w2.outcomes.subrange(0, w.index as int) == w.outcomes
            &&& a is Done ==> a == Act::Done(Ok(Outcome::Switched)) && w2.outcomes.len()
                == w.boards.len()
            &&& forall|k: int|
                w.index <= k < w2.index && w.boards[k] is None ==> w2.outcomes[k] == Err::<
                    Outcome,
                    PowerError,
                >(PowerError::ConfigError)
            &&& w.index < w.boards.len() && w.boards[w.index as int] is Some && next(
                w.current->Some_0,
                r,
            ).1 is Done ==> w2.index > w.index && w2.outcomes[w.index as int] == next(
                w.current->Some_0,
                r,
            ).1->Done_0
            &&& w2.index > w.index && w2.index < w.boards.len() ==> w2.current == Some(
                next(initial(PowerOp::Off, w.boards[w2.index as int]->Some_0), r).0,
            )
        }),
{
    if w.index < w.boards.len() {
        match (w.boards[w.index as int], w.current) {
            (Some(_), Some(cur)) => {
                let (c, a) = next(cur, r);
                if let Act::Done(res) = a {
                    lemma_start_from_wf(w.boards, w.index + 1, w.outcomes.push(res), Some(c), r);
                    let w2 = sweep_next(w, r).0;
                    assert(w2.outcomes.subrange(0, (w.index + 1) as int)[w.index as int]
                        == w2.outcomes[w.index as int]);
                    assert(w.outcomes.push(res).subrange(0, w.index as int) =~= w.outcomes);
                    assert(w2.outcomes.subrange(0, w.index as int) =~= w2.outcomes.subrange(
                        0,
                        (w.index + 1) as int,
                    ).subrange(0, w.index as int));
                }
            },
            _ => {
                lemma_start_from_wf(w.boards, w.index, w.outcomes, w.current, r);
            },
        }
    } else {
        assert(w.outcomes.subrange(0, w.index as int) =~= w.outcomes);
    }
}

/// The boards of a registry's entries, one slot per entry, in order.
pub open spec fn sweep_slots(v: Seq<BoardEntry>) -> Seq<Option<BoardView>> {
    v.map_values(|e: BoardEntry| entry_board(e))
}

/// Starts a sweep over every entry of the configuration, in order.  It fails
/// only when the configuration has no `boards` mapping; an entry that
/// describes no usable board is recorded as a `ConfigError` when the sweep
/// reaches it.  The sweep starts with the power-off of the first board.
pub fn goodnight(config: &Config) -> (r: Result<Sweep, ConfigParsingError>)
    ensures
        match config.boards {
            BoardsSection::Entries(v) => r is Ok && r->Ok_0@.boards == sweep_slots(v@)
                && r->Ok_0@.index == 0 && r->Ok_0@.outcomes.len() == 0 && r->Ok_0@.wf() && (
            v@.len() > 0 && entry_board(v@[0]) is Some ==> r->Ok_0@.current == Some(
                initial(PowerOp::Off, entry_board(v@[0])->Some_0),
            )),
            _ => r is Err && r->Err_0@ == "No boards found"@,
        },
{
    let v = match &config.boards {
        BoardsSection::Entries(v) => v,
        _ => return Err(ConfigParsingError::new("No boards found")),
    };
    let mut slots: Vec<Option<Board>> = Vec::new();
    let mut i: usize = 0;
    while i < v.len()
        invariant
            config.boards == BoardsSection::Entries(*v),
            i <= v@.len(),
            slots@.map_values(|b: Option<Board>| board_opt_view(b)) == sweep_slots(
                v@.subrange(0, i as int),
            ),
        decreases v@.len() - i,
    {
        let slot = match &v[i].name {
            Some(n) => match populate_board(n.as_str(), &v[i]) {
                Ok(b) => Some(b),
                Err(_) => None,
            },
            None => None,
        };
        assert(board_opt_view(slot) == entry_board(v@[i as int]));
        let ghost prev = slots@;
        slots.push(slot);
        assert(slots@.map_values(|b: Option<Board>| board_opt_view(b)) =~= prev.map_values(
            |b: Option<Board>| board_opt_view(b),
        ).push(board_opt_view(slot)));
        assert(sweep_slots(v@.subrange(0, i + 1)) =~= sweep_slots(v@.subrange(0, i as int)).push(
            entry_board(v@[i as int]),
        ));
        i = i + 1;
    }
    assert(v@.subrange(0, v@.len() as int) =~= v@);
    let w = Sweep::new(slots);
    Ok(w)
}

} // verus!
