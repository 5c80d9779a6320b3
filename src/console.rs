//! The expect-driven console session that proves a board booted or halted.
//!
//! A session follows a table of steps: wait for a marker in the console
//! output, or write a line to the console.  Output is searched in the order
//! it arrived; the search for a marker starts right after the previous
//! marker, so no marker is matched twice and none is skipped.  The caller
//! owns the serial port: it feeds what it reads to [`ConsoleSession::feed`],
//! writes the lines that come back, and reports the time that has passed to
//! [`ConsoleSession::tick`].
use vstd::prelude::*;
use vstd::string::*;

use crate::error::ConsoleError;
use crate::text::{contains, find, is_first_occurrence, occurs_at, utf8};

verus! {

/// How long a session may wait for its markers, in milliseconds.
pub const CONSOLE_TIMEOUT_MS: u64 = 120000;

/// The baud rate of the boards' serial consoles.
pub const CONSOLE_BAUD_RATE: u32 = 115200;

/// One step of a console script.
#[derive(Debug)]
pub enum ConsoleStep {
    /// Wait until this text shows in the output; fail with the error if the
    /// session times out here.
    Expect(Vec<u8>, ConsoleError),
    /// Write this line to the console.
    Send(String),
}

/// The contents of a [`ConsoleStep`].
pub enum StepView {
    Expect(Seq<u8>, ConsoleError),
    Send(Seq<char>),
}

impl View for ConsoleStep {
    type V = StepView;

    open spec fn view(&self) -> StepView {
        match self {
            ConsoleStep::Expect(m, e) => StepView::Expect(m@, *e),
            ConsoleStep::Send(l) => StepView::Send(l@),
        }
    }
}

/// Where a console session stands.
#[derive(Debug, Clone, Copy, PartialEq, Eq, Structural)]
pub enum SessionStatus {
    /// Some steps remain.
    Waiting,
    /// Every step passed.
    Succeeded,
    /// The session failed.
    Failed(ConsoleError),
}

/// A console session in progress.
#[derive(Debug)]
pub struct ConsoleSession {
    steps: Vec<ConsoleStep>,
    next: usize,
    buffer: Vec<u8>,
    failed: Option<ConsoleError>,
}

/// The contents of a [`ConsoleSession`]: its script, the step it is at, the
/// output not yet consumed by a marker, and its failure, if any.
pub struct ConsoleView {
    pub steps: Seq<StepView>,
    pub next: nat,
    pub buffer: Seq<u8>,
    pub failed: Option<ConsoleError>,
}

impl View for ConsoleSession {
    type V = ConsoleView;

    closed spec fn view(&self) -> ConsoleView {
        ConsoleView {
            steps: self.steps@.map_values(|s: ConsoleStep| s@),
            next: self.next as nat,
            buffer: self.buffer@,
            failed: self.failed,
        }
    }
}

/// Where the first occurrence of `pat` in `text` starts.
pub open spec fn first_occurrence(text: Seq<u8>, pat: Seq<u8>) -> int {
    choose|i: int| is_first_occurrence(text, pat, i)
}

/// Runs a script from step `from` over the output `text`: the step it stops
/// at, the output left after the last marker matched, and the lines written.
pub open spec fn advance(steps: Seq<StepView>, from: nat, text: Seq<u8>) -> (nat, Seq<u8>, Seq<
    Seq<char>,
>)
    decreases steps.len() - from,
{
    if from >= steps.len() {
        (from, text, Seq::empty())
    } else {
        match steps[from as int] {
            StepView::Send(l) => {
                let (n, rest, out) = advance(steps, from + 1, text);
                (n, rest, seq![l] + out)
            },
            StepView::Expect(m, _) => if contains(text, m) {
                let i = first_occurrence(text, m);
                advance(steps, from + 1, text.subrange(i + m.len(), text.len() as int))
            } else {
                (from, text, Seq::empty())
            },
        }
    }
}

/// The markers of the script from step `from` on occur in `text`, each after
/// the one before it.
pub open spec fn markers_in_order(steps: Seq<StepView>, from: nat, text: Seq<u8>) -> bool
    decreases steps.len() - from,
{
    if from >= steps.len() {
        true
    } else {
        match steps[from as int] {
            StepView::Send(_) => markers_in_order(steps, from + 1, text),
            StepView::Expect(m, _) => exists|i: int|
                occurs_at(text, m, i) && markers_in_order(
                    steps,
                    from + 1,
                    text.subrange(i + m.len(), text.len() as int),
                ),
        }
    }
}

/// The state of a session after it is fed `data`.
pub open spec fn fed(s: ConsoleView, data: Seq<u8>) -> (ConsoleView, Seq<Seq<char>>) {
    if s.failed is Some {
        (s, Seq::empty())
    } else {
        let (n, rest, out) = advance(s.steps, s.next, s.buffer + data);
        (ConsoleView { next: n, buffer: rest, ..s }, out)
    }
}

/// The state of a session once `elapsed_ms` have passed since it started: a
/// session still waiting for a marker fails with that marker's error once
/// the timeout is reached.
pub open spec fn ticked(s: ConsoleView, elapsed_ms: u64) -> ConsoleView {
    if s.failed is None && s.next < s.steps.len() && elapsed_ms >= CONSOLE_TIMEOUT_MS {
        match s.steps[s.next as int] {
            StepView::Expect(_, e) => ConsoleView { failed: Some(e), ..s },
            StepView::Send(_) => s,
        }
    } else {
        s
    }
}

/// The status that a session's contents give.
pub open spec fn status_of(s: ConsoleView) -> SessionStatus {
    match s.failed {
        Some(e) => SessionStatus::Failed(e),
        None => if s.next >= s.steps.len() {
            SessionStatus::Succeeded
        } else {
            SessionStatus::Waiting
        },
    }
}

pub open spec fn lines_view(v: Seq<String>) -> Seq<Seq<char>> {
    v.map_values(|s: String| s@)
}

fn tail(v: &Vec<u8>, from: usize) -> (r: Vec<u8>)
    requires
        from <= v@.len(),
    ensures
        r@ == v@.subrange(from as int, v@.len() as int),
{
    let mut r: Vec<u8> = Vec::new();
    let mut k: usize = from;
    while k < v.len()
        invariant
            from <= k <= v@.len(),
            r@ == v@.subrange(from as int, k as int),
        decreases v@.len() - k,
    {
        r.push(v[k]);
        k = k + 1;
        assert(r@ =~= v@.subrange(from as int, k as int));
    }
    r
}

fn copy_line(s: &String) -> (r: String)
    ensures
        r@ == s@,
{
    s.clone()
}

impl ConsoleSession {
    /// A session that follows `steps`, from the first.
    pub fn new(steps: Vec<ConsoleStep>) -> (r: ConsoleSession)
        ensures
            r@ == (ConsoleView {
                steps: steps@.map_values(|s: ConsoleStep| s@),
                next: 0,
                buffer: Seq::empty(),
                failed: None,
            }),
    {
        ConsoleSession { steps, next: 0, buffer: Vec::new(), failed: None }
    }

    /// Where the session stands.
    pub fn status(&self) -> (r: SessionStatus)
        ensures
            r == status_of(self@),
    {
        match self.failed {
            Some(e) => SessionStatus::Failed(e),
            None => if self.next >= self.steps.len() {
                SessionStatus::Succeeded
            } else {
                SessionStatus::Waiting
            },
        }
    }

    /// The index of the step the session is at.
    pub fn position(&self) -> (r: usize)
        ensures
            r == self@.next,
    {
        self.next
    }

    /// Takes output read from the console and returns the lines to write to
    /// it, in order.  Feeding nothing starts the session.
    pub fn feed(&mut self, data: &[u8]) -> (r: Vec<String>)
        ensures
            final(self)@ == fed(old(self)@, data@).0,
            lines_view(r@) == fed(old(self)@, data@).1,
    {
        let mut out: Vec<String> = Vec::new();
        if self.failed.is_some() {
            assert(lines_view(out@) =~= Seq::<Seq<char>>::empty());
            return out;
        }
        let ghost steps = self@.steps;
        let ghost start = self@.next;
        let ghost text = self.buffer@ + data@;
        let mut k: usize = 0;
        while k < data.len()
            invariant
                self@.steps == steps,
                self@.next == start,
                self@.failed is None,
                k <= data@.len(),
                self.buffer@ == old(self).buffer@ + data@.subrange(0, k as int),
            decreases data@.len() - k,
        {
            self.buffer.push(data[k]);
            k = k + 1;
            assert(self.buffer@ =~= old(self).buffer@ + data@.subrange(0, k as int));
        }
        assert(data@.subrange(0, data@.len() as int) =~= data@);
        let ghost goal = advance(steps, start, text);
        assert(lines_view(out@) + advance(steps, self@.next, self.buffer@).2 =~= goal.2);
        loop
            invariant
                self@.steps == steps,
                self@.failed is None,
                advance(steps, self@.next, self.buffer@).0 == goal.0,
                advance(steps, self@.next, self.buffer@).1 == goal.1,
                lines_view(out@) + advance(steps, self@.next, self.buffer@).2 == goal.2,
            ensures
                self@.steps == steps,
                self@.failed is None,
                self@.next == goal.0,
                self.buffer@ == goal.1,
                lines_view(out@) == goal.2,
            decreases steps.len() - self@.next,
        {
            if self.next >= self.steps.len() {
                assert(lines_view(out@) =~= goal.2);
                assert(self@.next == goal.0 && self.buffer@ == goal.1);
                break;
            }
            let ghost before = advance(steps, self@.next, self.buffer@);
            let ghost at = self@.next;
            assert(self.steps@[self.next as int]@ == steps[self.next as int]);
            match &self.steps[self.next] {
                ConsoleStep::Send(l) => {
                    let line = copy_line(l);
                    let ghost prev = out@;
                    out.push(line);
                    self.next = self.next + 1;
                    assert(lines_view(out@) =~= lines_view(prev).push(line@));
                    assert(lines_view(out@) + advance(steps, self@.next, self.buffer@).2 =~= lines_view(prev) + before.2);
                },
                ConsoleStep::Expect(m, _) => {
                    match find(self.buffer.as_slice(), m.as_slice()) {
                        Some(i) => {
                            proof {
                                assert(occurs_at(self.buffer@, m@, i as int));
                                lemma_first_unique(self.buffer@, m@, i as int);
                            }
                            assert(i + m@.len() <= self.buffer@.len());
                            assert(self.buffer@.len() == self.buffer.len());
                            let end: usize = i + m.len();
                            let rest = tail(&self.buffer, end);
                            self.buffer = rest;
                            self.next = self.next + 1;
                        },
                        None => {
                            assert(lines_view(out@) =~= goal.2);
                            assert(self@.next == goal.0 && self.buffer@ == goal.1);
                            break;
                        },
                    }
                },
            }
        }
        out
    }

    /// Reports the time passed since the session started.
    pub fn tick(&mut self, elapsed_ms: u64)
        ensures
            final(self)@ == ticked(old(self)@, elapsed_ms),
    {
        if self.failed.is_none() && self.next < self.steps.len() && elapsed_ms
            >= CONSOLE_TIMEOUT_MS {
            match &self.steps[self.next] {
                ConsoleStep::Expect(_, e) => {
                    self.failed = Some(*e);
                },
                ConsoleStep::Send(_) => {},
            }
        }
    }
}

proof fn lemma_first_unique(text: Seq<u8>, pat: Seq<u8>, i: int)
    requires
        is_first_occurrence(text, pat, i),
    ensures
        first_occurrence(text, pat) == i,
{
    let j = first_occurrence(text, pat);
    assert(is_first_occurrence(text, pat, j));
    if j < i {
        assert(!occurs_at(text, pat, j));
    }
    if j > i {
        assert(!occurs_at(text, pat, i));
    }
}

/// The script that proves a boot: the boot loader, kernel, init and login
/// banners, a scripted root login, and the shell prompt.
pub open spec fn boot_steps() -> Seq<StepView> {
    seq![
        StepView::Expect(utf8("U-Boot"@), ConsoleError::BootTimeout),
        StepView::Expect(utf8("Linux version"@), ConsoleError::BootTimeout),
        StepView::Expect(utf8("init"@), ConsoleError::BootTimeout),
        StepView::Expect(utf8("login: "@), ConsoleError::BootTimeout),
        StepView::Send("root"@),
        StepView::Expect(utf8("assword: "@), ConsoleError::BootTimeout),
        StepView::Send("fedora_rocks!"@),
        StepView::Expect(utf8("#"@), ConsoleError::UnexpectedConsoleOutput),
    ]
}

/// The script that proves a clean shutdown.
pub open spec fn shutdown_steps() -> Seq<StepView> {
    seq![
        StepView::Send("poweroff"@),
        StepView::Expect(utf8("reboot: System halted"@), ConsoleError::ShutdownTimeout),
    ]
}

fn expect(marker: &str, e: ConsoleError) -> (r: ConsoleStep)
    ensures
        r@ == StepView::Expect(utf8(marker@), e),
{
    ConsoleStep::Expect(marker.as_bytes_vec(), e)
}

fn send(line: &str) -> (r: ConsoleStep)
    ensures
        r@ == StepView::Send(line@),
{
    ConsoleStep::Send(String::from_str(line))
}

/// A session that waits for a board to boot and logs in as root.
pub fn boot_session() -> (r: ConsoleSession)
    ensures
        r@ == (ConsoleView { steps: boot_steps(), next: 0, buffer: Seq::empty(), failed: None }),
{
    let steps = vec![
        expect("U-Boot", ConsoleError::BootTimeout),
        expect("Linux version", ConsoleError::BootTimeout),
        expect("init", ConsoleError::BootTimeout),
        expect("login: ", ConsoleError::BootTimeout),
        send("root"),
        expect("assword: ", ConsoleError::BootTimeout),
        send("fedora_rocks!"),
        expect("#", ConsoleError::UnexpectedConsoleOutput),
    ];
    assert(steps@.map_values(|s: ConsoleStep| s@) =~= boot_steps());
    ConsoleSession::new(steps)
}

/// A session that powers a board off from its console and waits until it
/// reports that it halted.
pub fn shutdown_session() -> (r: ConsoleSession)
    ensures
        r@ == (ConsoleView { steps: shutdown_steps(), next: 0, buffer: Seq::empty(), failed: None }),
{
    let steps = vec![
        send("poweroff"),
        expect("reboot: System halted", ConsoleError::ShutdownTimeout),
    ];
    assert(steps@.map_values(|s: ConsoleStep| s@) =~= shutdown_steps());
    ConsoleSession::new(steps)
}

proof fn lemma_in_order_extends(steps: Seq<StepView>, from: nat, text: Seq<u8>, a: int)
    requires
        0 <= a <= text.len(),
        markers_in_order(steps, from, text.subrange(a, text.len() as int)),
    ensures
        markers_in_order(steps, from, text),
    decreases steps.len() - from,
{
    let u = text.subrange(a, text.len() as int);
    if from < steps.len() {
        match steps[from as int] {
            StepView::Send(_) => {
                lemma_in_order_extends(steps, from + 1, text, a);
            },
            StepView::Expect(m, _) => {
                let i = choose|i: int|
                    occurs_at(u, m, i) && markers_in_order(
                        steps,
                        from + 1,
                        u.subrange(i + m.len(), u.len() as int),
                    );
                assert(text.subrange(a + i, a + i + m.len()) =~= u.subrange(i, i + m.len()));
                assert(u.subrange(i + m.len(), u.len() as int) =~= text.subrange(
                    a + i + m.len(),
                    text.len() as int,
                ));
                assert(occurs_at(text, m, a + i));
            },
        }
    } else {
    }
}

/// A script run over a text passes all its steps exactly when the text shows
/// its markers in order: the search never skips a marker and never goes back.
pub proof fn lemma_completes_iff_in_order(steps: Seq<StepView>, from: nat, text: Seq<u8>)
    requires
        from <= steps.len(),
    ensures
        advance(steps, from, text).0 == steps.len() <==> markers_in_order(steps, from, text),
    decreases steps.len() - from,
{
    if from < steps.len() {
        match steps[from as int] {
            StepView::Send(_) => {
                lemma_completes_iff_in_order(steps, from + 1, text);
            },
            StepView::Expect(m, _) => {
                if contains(text, m) {
                    let f = first_occurrence(text, m);
                    let j = choose|j: int| occurs_at(text, m, j);
                    lemma_first_exists(text, m, j);
                    let rest = text.subrange(f + m.len(), text.len() as int);
                    lemma_completes_iff_in_order(steps, from + 1, rest);
                    if markers_in_order(steps, from, text) {
                        let i = choose|i: int|
                            occurs_at(text, m, i) && markers_in_order(
                                steps,
                                from + 1,
                                text.subrange(i + m.len(), text.len() as int),
                            );
                        assert(f <= i);
                        assert(rest.subrange(i - f, rest.len() as int) =~= text.subrange(
                            i + m.len(),
                            text.len() as int,
                        ));
                        lemma_in_order_extends(steps, from + 1, rest, i - f);
                    }
                } else {
                    assert(!markers_in_order(steps, from, text));
                }
            },
        }
    }
}

/// A text where a pattern occurs has a first occurrence of it.
proof fn lemma_first_exists(text: Seq<u8>, pat: Seq<u8>, j: int)
    requires
        occurs_at(text, pat, j),
    ensures
        is_first_occurrence(text, pat, first_occurrence(text, pat)),
    decreases j,
{
    if exists|k: int| 0 <= k < j && occurs_at(text, pat, k) {
        let k = choose|k: int| 0 <= k < j && occurs_at(text, pat, k);
        lemma_first_exists(text, pat, k);
    } else {
        assert(is_first_occurrence(text, pat, j));
    }
}

/// A session fed a whole console transcript has passed every step exactly
/// when the transcript shows the script's markers in order; otherwise it
/// is still waiting, and once the timeout is reached it fails with the error
/// of the marker it was waiting for.
pub proof fn lemma_session_outcome(steps: Seq<StepView>, text: Seq<u8>, elapsed_ms: u64)
    ensures
        ({
            let s0 = ConsoleView { steps, next: 0, buffer: Seq::empty(), failed: None };
            let s1 = fed(s0, text).0;
            &&& status_of(s1) == SessionStatus::Succeeded <==> markers_in_order(steps, 0, text)
            &&& !markers_in_order(steps, 0, text) && elapsed_ms >= CONSOLE_TIMEOUT_MS ==> (
            steps[s1.next as int] matches StepView::Expect(_, e) && status_of(ticked(s1, elapsed_ms))
                == SessionStatus::Failed(e))
        }),
{
    let s0 = ConsoleView { steps, next: 0, buffer: Seq::empty(), failed: None };
    assert(Seq::<u8>::empty() + text =~= text);
    lemma_completes_iff_in_order(steps, 0, text);
    lemma_advance_stops_at_expect(steps, 0, text);
}

proof fn lemma_advance_stops_at_expect(steps: Seq<StepView>, from: nat, text: Seq<u8>)
    ensures
        advance(steps, from, text).0 >= from,
        from <= steps.len() ==> advance(steps, from, text).0 <= steps.len(),
        advance(steps, from, text).0 < steps.len() ==> steps[advance(steps, from, text).0 as int] is Expect,
    decreases steps.len() - from,
{
    if from < steps.len() {
        match steps[from as int] {
            StepView::Send(_) => {
                lemma_advance_stops_at_expect(steps, from + 1, text);
            },
            StepView::Expect(m, _) => {
                if contains(text, m) {
                    let i = first_occurrence(text, m);
                    lemma_advance_stops_at_expect(
                        steps,
                        from + 1,
                        text.subrange(i + m.len(), text.len() as int),
                    );
                }
            },
        }
    }
}

proof fn lemma_first_in_extension(t: Seq<u8>, b: Seq<u8>, m: Seq<u8>, f: int)
    requires
        is_first_occurrence(t, m, f),
    ensures
        is_first_occurrence(t + b, m, f),
        (t + b).subrange(f + m.len(), (t + b).len() as int) == t.subrange(
            f + m.len(),
            t.len() as int,
        ) + b,
{
    assert((t + b).subrange(f, f + m.len()) =~= t.subrange(f, f + m.len()));
    assert forall|j: int| 0 <= j < f implies !occurs_at(t + b, m, j) by {
        if occurs_at(t + b, m, j) {
            assert((t + b).subrange(j, j + m.len()) =~= t.subrange(j, j + m.len()));
            assert(occurs_at(t, m, j));
        }
    }
    assert((t + b).subrange(f + m.len(), (t + b).len() as int) =~= t.subrange(
        f + m.len(),
        t.len() as int,
    ) + b);
}

proof fn lemma_advance_extends(steps: Seq<StepView>, from: nat, t: Seq<u8>, b: Seq<u8>)
    ensures
        ({
            let (n1, r1, o1) = advance(steps, from, t);
            let (n2, r2, o2) = advance(steps, n1, r1 + b);
            advance(steps, from, t + b) == (n2, r2, o1 + o2)
        }),
    decreases steps.len() - from,
{
    if from >= steps.len() {
        assert(Seq::<Seq<char>>::empty() + advance(steps, from, t + b).2 =~= advance(
            steps,
            from,
            t + b,
        ).2);
    } else {
        match steps[from as int] {
            StepView::Send(l) => {
                lemma_advance_extends(steps, from + 1, t, b);
                let (n1, r1, o1) = advance(steps, from + 1, t);
                let o2 = advance(steps, n1, r1 + b).2;
                assert(seq![l] + o1 + o2 =~= seq![l] + (o1 + o2));
            },
            StepView::Expect(m, _) => {
                if contains(t, m) {
                    let f = first_occurrence(t, m);
                    let j = choose|j: int| occurs_at(t, m, j);
                    lemma_first_exists(t, m, j);
                    lemma_first_in_extension(t, b, m, f);
                    lemma_first_unique(t + b, m, f);
                    lemma_advance_extends(
                        steps,
                        from + 1,
                        t.subrange(f + m.len(), t.len() as int),
                        b,
                    );
                } else {
                    assert(Seq::<Seq<char>>::empty() + advance(steps, from, t + b).2 =~= advance(
                        steps,
                        from,
                        t + b,
                    ).2);
                }
            },
        }
    }
}

/// Feeding a session its console output in two pieces has the same effect
/// as feeding it all at once: the same state is reached and the same lines
/// are written, in the same order.  Markers split across reads are found.
pub proof fn lemma_feed_in_pieces(s: ConsoleView, a: Seq<u8>, b: Seq<u8>)
    ensures
        fed(fed(s, a).0, b).0 == fed(s, a + b).0,
        fed(s, a).1 + fed(fed(s, a).0, b).1 == fed(s, a + b).1,
{
    if s.failed is None {
        lemma_advance_extends(s.steps, s.next, s.buffer + a, b);
        assert(s.buffer + a + b =~= s.buffer + (a + b));
    } else {
        assert(Seq::<Seq<char>>::empty() + Seq::<Seq<char>>::empty() =~= Seq::<Seq<char>>::empty());
    }
}

} // verus!
