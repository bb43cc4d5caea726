//! The per-package "update all" queue: the skip / abort requests that the
//! user makes while it runs, and the decisions of the queue itself.
//!
//! The queue is a state machine: the caller asks `request` what to do next,
//! does it (reads the control state, or runs one upgrade attempt) and hands
//! the answer back; each transition returns the events to show.
use vstd::prelude::*;
use crate::detect::{completion_status, spec_status, OpStatus};
use crate::op::{op_next_silent, op_record, op_start, OpRun, OpRunView, OpStep, OpStepView};
use crate::text::{decimal, decimal_string, owned, push_str, same_text, spec_to_lowercase, string_of};

verus! {

// ───────────────────────── skip / abort control ─────────────────────────

/// The requests made while a queue runs: packages to skip, and whether the
/// rest of the queue is to be abandoned.
pub struct QueueControl {
    skip: Vec<String>,
    abort: bool,
}

pub struct ControlView {
    pub skip: Set<Seq<char>>,
    pub abort: bool,
}

impl ControlView {
    pub open spec fn cleared() -> ControlView {
        ControlView { skip: Set::empty(), abort: false }
    }

    pub open spec fn with_skip(self, pkg: Seq<char>) -> ControlView {
        ControlView { skip: self.skip.insert(pkg), abort: self.abort }
    }

    pub open spec fn with_abort(self) -> ControlView {
        ControlView { skip: self.skip, abort: true }
    }
}

impl View for QueueControl {
    type V = ControlView;

    closed spec fn view(&self) -> ControlView {
        ControlView {
            skip: Set::new(|p: Seq<char>| exists|i: int| 0 <= i < self.skip@.len() && self.skip@[i]@ == p),
            abort: self.abort,
        }
    }
}

impl QueueControl {
    pub fn new() -> (q: QueueControl)
        ensures
            q@ == ControlView::cleared(),
    {
        let q = QueueControl { skip: Vec::new(), abort: false };
        assert(q@.skip =~= Set::<Seq<char>>::empty());
        q
    }

    /// Forgets all skip requests and any abort request.
    pub fn reset(&mut self)
        ensures
            final(self)@ == ControlView::cleared(),
    {
        self.skip = Vec::new();
        self.abort = false;
        assert(self@.skip =~= Set::<Seq<char>>::empty());
    }

    pub fn should_skip(&self, pkg: &str) -> (b: bool)
        ensures
            b == self@.skip.contains(pkg@),
    {
        let mut i: usize = 0;
        while i < self.skip.len()
            invariant
                i <= self.skip@.len(),
                forall|k: int| 0 <= k < i ==> self.skip@[k]@ != pkg@,
            decreases self.skip.len() - i,
        {
            if same_text(self.skip[i].as_str(), pkg) {
                assert(self@.skip.contains(pkg@));
                return true;
            }
            i = i + 1;
        }
        false
    }

    pub fn should_abort(&self) -> (b: bool)
        ensures
            b == self@.abort,
    {
        self.abort
    }

    pub fn add_skip(&mut self, pkg: String)
        ensures
            final(self)@ == old(self)@.with_skip(pkg@),
    {
        let ghost p = pkg@;
        if !self.should_skip(pkg.as_str()) {
            self.skip.push(pkg);
            assert forall|q: Seq<char>| old(self)@.skip.insert(p).contains(q) implies self@.skip.contains(q) by {
                if q == p {
                    assert(self.skip@[self.skip@.len() - 1]@ == q);
                } else {
                    let i = choose|i: int| 0 <= i < old(self).skip@.len() && old(self).skip@[i]@ == q;
                    assert(self.skip@[i]@ == q);
                }
            }
            assert forall|q: Seq<char>| self@.skip.contains(q) implies old(self)@.skip.insert(p).contains(q) by {
                let i = choose|i: int| 0 <= i < self.skip@.len() && self.skip@[i]@ == q;
                if i < old(self).skip@.len() {
                    assert(old(self).skip@[i]@ == q);
                }
            }
        }
        assert(self@.skip =~= old(self)@.skip.insert(p));
    }

    pub fn set_abort(&mut self)
        ensures
            final(self)@ == old(self)@.with_abort(),
    {
        self.abort = true;
        assert(self@.skip =~= old(self)@.skip);
    }
}

/// A package asked to be skipped is skipped, whatever else is asked after
/// it, until the control is reset.
pub proof fn law_skip_request_sticks(c: ControlView, pkg: Seq<char>, other: Seq<char>)
    ensures
        c.with_skip(pkg).skip.contains(pkg),
        c.with_skip(pkg).with_skip(other).skip.contains(pkg),
        c.with_skip(pkg).with_abort().skip.contains(pkg),
        c.with_skip(pkg).abort == c.abort,
{
}

/// An abort request stays until reset, and does not touch the skip requests.
pub proof fn law_abort_request_sticks(c: ControlView, pkg: Seq<char>)
    ensures
        c.with_abort().abort,
        c.with_abort().with_skip(pkg).abort,
        c.with_abort().skip == c.skip,
{
}

/// A reset forgets every request.
pub proof fn law_reset_forgets(pkg: Seq<char>)
    ensures
        !ControlView::cleared().skip.contains(pkg),
        !ControlView::cleared().abort,
{
}

/// Asking twice to skip a package is the same as asking once.
pub proof fn law_skip_idempotent(c: ControlView, pkg: Seq<char>)
    ensures
        c.with_skip(pkg).with_skip(pkg) == c.with_skip(pkg),
{
    assert(c.with_skip(pkg).with_skip(pkg).skip =~= c.with_skip(pkg).skip);
}

/// A request made to the control while a queue runs.
pub enum ControlRequest {
    Skip(Seq<char>),
    Abort,
}

/// The control after these requests, in order.
pub open spec fn after_requests(c: ControlView, rs: Seq<ControlRequest>) -> ControlView
    decreases rs.len(),
{
    if rs.len() == 0 {
        c
    } else {
        let next = match rs[0] {
            ControlRequest::Skip(p) => c.with_skip(p),
            ControlRequest::Abort => c.with_abort(),
        };
        after_requests(next, rs.drop_first())
    }
}

/// The packages these requests ask to skip.
pub open spec fn skips_in(rs: Seq<ControlRequest>) -> Set<Seq<char>> {
    Set::new(|p: Seq<char>| exists|i: int| 0 <= i < rs.len() && rs[i] == ControlRequest::Skip(p))
}

/// Whether one of these requests is an abort.
pub open spec fn aborts_in(rs: Seq<ControlRequest>) -> bool {
    exists|i: int| 0 <= i < rs.len() && rs[i] == ControlRequest::Abort
}

proof fn lemma_after_requests(c: ControlView, rs: Seq<ControlRequest>)
    ensures
        after_requests(c, rs).skip == c.skip.union(skips_in(rs)),
        after_requests(c, rs).abort == (c.abort || aborts_in(rs)),
    decreases rs.len(),
{
    if rs.len() == 0 {
        assert(skips_in(rs) =~= Set::<Seq<char>>::empty());
        assert(c.skip.union(skips_in(rs)) =~= c.skip);
    } else {
        let next = match rs[0] {
            ControlRequest::Skip(p) => c.with_skip(p),
            ControlRequest::Abort => c.with_abort(),
        };
        let rest = rs.drop_first();
        lemma_after_requests(next, rest);
        assert forall|p: Seq<char>| #[trigger] skips_in(rs).contains(p) implies next.skip.union(
            skips_in(rest),
        ).contains(p) by {
            let i = choose|i: int| 0 <= i < rs.len() && rs[i] == ControlRequest::Skip(p);
            if i > 0 {
                assert(rest[i - 1] == rs[i]);
            }
        }
        assert forall|p: Seq<char>| #[trigger] skips_in(rest).contains(p) implies skips_in(
            rs,
        ).contains(p) by {
            let i = choose|i: int| 0 <= i < rest.len() && rest[i] == ControlRequest::Skip(p);
            assert(rs[i + 1] == rest[i]);
        }
        assert(next.skip.union(skips_in(rest)) =~= c.skip.union(skips_in(rs)));
        if aborts_in(rest) {
            let i = choose|i: int| 0 <= i < rest.len() && rest[i] == ControlRequest::Abort;
            assert(rs[i + 1] == rest[i]);
        }
        if aborts_in(rs) && !(rs[0] is Abort) {
            let i = choose|i: int| 0 <= i < rs.len() && rs[i] == ControlRequest::Abort;
            assert(rest[i - 1] == rs[i]);
        }
    }
}

/// Once abort is asked, it holds after any later requests until the control
/// is reset, and the packages to skip are those asked before and after.
pub proof fn law_abort_sticks(c: ControlView, later: Seq<ControlRequest>)
    ensures
        after_requests(c.with_abort(), later).abort,
        after_requests(c.with_abort(), later).skip == c.skip.union(skips_in(later)),
{
    lemma_after_requests(c.with_abort(), later);
}

// ───────────────────────── queue events ─────────────────────────

/// How one package of the queue ended.
#[derive(Clone, Copy, PartialEq, Eq, Structural, Debug)]
pub enum PkgStatus {
    Success,
    AppRunning,
    Error,
    Skipped,
}

impl PkgStatus {
    pub open spec fn spec_name(self) -> Seq<char> {
        match self {
            PkgStatus::Success => "success"@,
            PkgStatus::AppRunning => "app-running"@,
            PkgStatus::Error => "error"@,
            PkgStatus::Skipped => "skipped"@,
        }
    }

    /// The status word the front end receives.
    pub fn name(&self) -> (s: &'static str)
        ensures
            s@ == self.spec_name(),
    {
        match self {
            PkgStatus::Success => "success",
            PkgStatus::AppRunning => "app-running",
            PkgStatus::Error => "error",
            PkgStatus::Skipped => "skipped",
        }
    }
}

pub open spec fn pkg_status_of(s: OpStatus) -> PkgStatus {
    match s {
        OpStatus::Success => PkgStatus::Success,
        OpStatus::AppRunning => PkgStatus::AppRunning,
        OpStatus::Error => PkgStatus::Error,
    }
}

/// What the queue tells the front end.
#[derive(Debug, PartialEq, Eq)]
pub enum QueueEvent {
    /// A line for the log pane.
    Output(String),
    /// A package starts; `index` counts from 1.
    PkgStart { name: String, index: usize, total: usize },
    /// A package is over.
    PkgDone { name: String, status: PkgStatus },
    /// The whole queue is over.
    Complete(OpStatus),
}

pub enum EventView {
    Output(Seq<char>),
    PkgStart { name: Seq<char>, index: nat, total: nat },
    PkgDone { name: Seq<char>, status: PkgStatus },
    Complete(OpStatus),
}

impl View for QueueEvent {
    type V = EventView;

    open spec fn view(&self) -> EventView {
        match self {
            QueueEvent::Output(s) => EventView::Output(s@),
            QueueEvent::PkgStart { name, index, total } => EventView::PkgStart {
                name: name@,
                index: *index as nat,
                total: *total as nat,
            },
            QueueEvent::PkgDone { name, status } => EventView::PkgDone {
                name: name@,
                status: *status,
            },
            QueueEvent::Complete(s) => EventView::Complete(*s),
        }
    }
}

pub open spec fn events_view(v: Seq<QueueEvent>) -> Seq<EventView> {
    v.map_values(|e: QueueEvent| e@)
}

// ───────────────────────── messages ─────────────────────────

pub open spec fn aborted_text() -> Seq<char> {
    "⛔  Aborted — remaining packages skipped."@
}

pub open spec fn skipped_text(pkg: Seq<char>) -> Seq<char> {
    "⏭  Skipped: "@ + pkg
}

pub open spec fn updating_text(pkg: Seq<char>, index: nat, total: nat) -> Seq<char> {
    "\n── Updating "@ + pkg + " ("@ + decimal(index) + "/"@ + decimal(total) + ") ──"@
}

pub open spec fn retry_text() -> Seq<char> {
    "⚠  Silent update failed — retrying without --silent…"@
}

pub open spec fn result_text(pkg: Seq<char>, st: OpStatus) -> Seq<char> {
    match st {
        OpStatus::Success => "✓ "@ + pkg + " updated."@,
        OpStatus::AppRunning => "⚠  "@ + pkg + ": close the app to update."@,
        OpStatus::Error => "✕ "@ + pkg + " update failed."@,
    }
}

pub open spec fn summary_text(n_ok: nat, n_err: nat, n_skip: nat) -> Seq<char> {
    "\n── Done: "@ + decimal(n_ok) + " updated, "@ + decimal(n_err) + " failed, "@ + decimal(
        n_skip,
    ) + " skipped ──"@
}

fn updating_message(pkg: &str, index: usize, total: usize) -> (s: String)
    ensures
        s@ == updating_text(pkg@, index as nat, total as nat),
{
    let mut v: Vec<char> = Vec::new();
    push_str(&mut v, "\n── Updating ");
    push_str(&mut v, pkg);
    push_str(&mut v, " (");
    push_str(&mut v, decimal_string(index).as_str());
    push_str(&mut v, "/");
    push_str(&mut v, decimal_string(total).as_str());
    push_str(&mut v, ") ──");
    string_of(v.as_slice())
}

fn skipped_message(pkg: &str) -> (s: String)
    ensures
        s@ == skipped_text(pkg@),
{
    let mut v: Vec<char> = Vec::new();
    push_str(&mut v, "⏭  Skipped: ");
    push_str(&mut v, pkg);
    assert(v@ =~= skipped_text(pkg@));
    string_of(v.as_slice())
}

fn result_message(pkg: &str, st: OpStatus) -> (s: String)
    ensures
        s@ == result_text(pkg@, st),
{
    let mut v: Vec<char> = Vec::new();
    match st {
        OpStatus::Success => {
            push_str(&mut v, "✓ ");
            push_str(&mut v, pkg);
            push_str(&mut v, " updated.");
        },
        OpStatus::AppRunning => {
            push_str(&mut v, "⚠  ");
            push_str(&mut v, pkg);
            push_str(&mut v, ": close the app to update.");
        },
        OpStatus::Error => {
            push_str(&mut v, "✕ ");
            push_str(&mut v, pkg);
            push_str(&mut v, " update failed.");
        },
    }
    string_of(v.as_slice())
}

fn summary_message(n_ok: usize, n_err: usize, n_skip: usize) -> (s: String)
    ensures
        s@ == summary_text(n_ok as nat, n_err as nat, n_skip as nat),
{
    let mut v: Vec<char> = Vec::new();
    push_str(&mut v, "\n── Done: ");
    push_str(&mut v, decimal_string(n_ok).as_str());
    push_str(&mut v, " updated, ");
    push_str(&mut v, decimal_string(n_err).as_str());
    push_str(&mut v, " failed, ");
    push_str(&mut v, decimal_string(n_skip).as_str());
    push_str(&mut v, " skipped ──");
    string_of(v.as_slice())
}

// ───────────────────────── the queue ─────────────────────────

#[derive(Clone, Copy, PartialEq, Eq, Structural)]
pub enum QueuePhase {
    /// The next package is about to be looked at.
    Check,
    /// The current package is being upgraded.
    Upgrade,
    /// The queue is over.
    Done,
}

/// Where a queue stands: the current package and the counts so far.
#[derive(Clone, Copy)]
struct Progress {
    index: usize,
    n_ok: usize,
    n_err: usize,
    n_skip: usize,
    phase: QueuePhase,
}

/// A running "update all" queue.
pub struct QueueRun {
    packages: Vec<String>,
    silent: bool,
    at: Progress,
    op: OpRun,
}

pub struct QueueView {
    pub packages: Seq<Seq<char>>,
    pub silent: bool,
    pub index: nat,
    pub n_ok: nat,
    pub n_err: nat,
    pub n_skip: nat,
    pub phase: QueuePhase,
    pub op: OpRunView,
}

impl View for QueueRun {
    type V = QueueView;

    closed spec fn view(&self) -> QueueView {
        QueueView {
            packages: self.packages@.map_values(|p: String| p@),
            silent: self.silent,
            index: self.at.index as nat,
            n_ok: self.at.n_ok as nat,
            n_err: self.at.n_err as nat,
            n_skip: self.at.n_skip as nat,
            phase: self.at.phase,
            op: self.op@,
        }
    }
}

/// What the caller is to do next.
#[derive(Debug, PartialEq, Eq)]
pub enum QueueRequest {
    /// Read the control: is an abort requested, is `package` to be skipped?
    Control { package: String },
    /// Run one upgrade attempt of `package`, with or without the silent flags.
    Upgrade { package: String, silent: bool },
    /// Nothing more: the queue is over.
    Finished,
}

pub enum RequestView {
    Control { package: Seq<char> },
    Upgrade { package: Seq<char>, silent: bool },
    Finished,
}

impl View for QueueRequest {
    type V = RequestView;

    open spec fn view(&self) -> RequestView {
        match self {
            QueueRequest::Control { package } => RequestView::Control { package: package@ },
            QueueRequest::Upgrade { package, silent } => RequestView::Upgrade {
                package: package@,
                silent: *silent,
            },
            QueueRequest::Finished => RequestView::Finished,
        }
    }
}

impl QueueView {
    /// The counters always account for the packages dealt with so far.
    pub open spec fn wf(self) -> bool {
        &&& self.index <= self.packages.len()
        &&& self.phase != QueuePhase::Done ==> self.index < self.packages.len()
        &&& self.phase != QueuePhase::Done ==> self.n_ok + self.n_err + self.n_skip == self.index
        &&& self.phase == QueuePhase::Done ==> self.n_ok + self.n_err + self.n_skip
            == self.packages.len()
    }

    pub open spec fn total(self) -> nat {
        self.packages.len()
    }

    pub open spec fn current(self) -> Seq<char> {
        self.packages[self.index as int]
    }

    /// An upper bound on the transitions still to come.
    pub open spec fn measure(self) -> nat {
        if self.phase == QueuePhase::Done {
            0
        } else {
            let r = (self.total() - self.index) as nat;
            let extra: nat = if self.phase == QueuePhase::Check {
                2
            } else if self.op.retried {
                0
            } else {
                1
            };
            3 * (r - 1) as nat + extra + 1
        }
    }
}

pub open spec fn summary_events(n_ok: nat, n_err: nat, n_skip: nat) -> Seq<EventView> {
    seq![EventView::Output(summary_text(n_ok, n_err, n_skip)), EventView::Complete(OpStatus::Success)]
}

/// A queue over `packages`; an empty queue is over at once.
pub open spec fn queue_start(packages: Seq<Seq<char>>, silent: bool) -> (QueueView, Seq<EventView>) {
    let v = QueueView {
        packages,
        silent,
        index: 0,
        n_ok: 0,
        n_err: 0,
        n_skip: 0,
        phase: if packages.len() == 0 {
            QueuePhase::Done
        } else {
            QueuePhase::Check
        },
        op: op_start(silent, true),
    };
    if packages.len() == 0 {
        (v, summary_events(0, 0, 0))
    } else {
        (v, Seq::empty())
    }
}

pub open spec fn queue_request(v: QueueView) -> RequestView {
    match v.phase {
        QueuePhase::Check => RequestView::Control { package: v.current() },
        QueuePhase::Upgrade => RequestView::Upgrade {
            package: v.current(),
            silent: op_next_silent(v.op),
        },
        QueuePhase::Done => RequestView::Finished,
    }
}

/// Moves past the current package; the queue is over after the last one.
pub open spec fn queue_advance(v: QueueView, evs: Seq<EventView>) -> (QueueView, Seq<EventView>) {
    let w = QueueView { index: v.index + 1, phase: QueuePhase::Check, ..v };
    if w.index == v.total() {
        (
            QueueView { phase: QueuePhase::Done, ..w },
            evs + summary_events(w.n_ok, w.n_err, w.n_skip),
        )
    } else {
        (w, evs)
    }
}

/// The answer of the control for the current package.
pub open spec fn queue_on_control(v: QueueView, abort: bool, skip: bool) -> (
    QueueView,
    Seq<EventView>,
) {
    let pkg = v.current();
    if abort {
        let n_skip = v.n_skip + (v.total() - v.index) as nat;
        (
            QueueView { n_skip, phase: QueuePhase::Done, ..v },
            seq![EventView::Output(aborted_text())] + summary_events(v.n_ok, v.n_err, n_skip),
        )
    } else if skip {
        queue_advance(
            QueueView { n_skip: v.n_skip + 1, ..v },
            seq![
                EventView::PkgDone { name: pkg, status: PkgStatus::Skipped },
                EventView::Output(skipped_text(pkg)),
            ],
        )
    } else {
        (
            QueueView { phase: QueuePhase::Upgrade, op: op_start(v.silent, true), ..v },
            seq![
                EventView::PkgStart { name: pkg, index: v.index + 1, total: v.total() },
                EventView::Output(updating_text(pkg, v.index + 1, v.total())),
            ],
        )
    }
}

/// The outcome of an upgrade attempt of the current package.
pub open spec fn queue_on_attempt(v: QueueView, ok: bool, output: Seq<char>, code: Option<i32>) -> (
    QueueView,
    Seq<EventView>,
) {
    let pkg = v.current();
    let (op2, step) = op_record(v.op, ok, output, code);
    match step {
        OpStepView::RetryWithoutSilent => (
            QueueView { op: op2, ..v },
            seq![EventView::Output(retry_text())],
        ),
        OpStepView::Finished { ok, output, exit_code } => {
            let st = spec_status(ok, spec_to_lowercase(output), exit_code);
            let w = QueueView {
                op: op2,
                n_ok: if st == OpStatus::Success {
                    v.n_ok + 1
                } else {
                    v.n_ok
                },
                n_err: if st == OpStatus::Success {
                    v.n_err
                } else {
                    v.n_err + 1
                },
                ..v
            };
            queue_advance(
                w,
                seq![
                    EventView::Output(result_text(pkg, st)),
                    EventView::PkgDone { name: pkg, status: pkg_status_of(st) },
                ],
            )
        },
    }
}

impl QueueRun {
    #[verifier::type_invariant]
    closed spec fn inv(self) -> bool {
        self@.wf()
    }

    /// Starts a queue over `packages`; `silent` asks for unattended upgrades.
    pub fn start(packages: Vec<String>, silent: bool) -> (r: (QueueRun, Vec<QueueEvent>))
        ensures
            (r.0@, events_view(r.1@)) == queue_start(packages@.map_values(|p: String| p@), silent),
            r.0@.wf(),
    {
        let empty = packages.len() == 0;
        let q = QueueRun {
            packages,
            silent,
            at: Progress {
                index: 0,
                n_ok: 0,
                n_err: 0,
                n_skip: 0,
                phase: if empty {
                    QueuePhase::Done
                } else {
                    QueuePhase::Check
                },
            },
            op: OpRun::new(silent),
        };
        let mut evs: Vec<QueueEvent> = Vec::new();
        if empty {
            evs.push(QueueEvent::Output(summary_message(0, 0, 0)));
            evs.push(QueueEvent::Complete(OpStatus::Success));
            assert(events_view(evs@) =~= summary_events(0, 0, 0));
        } else {
            assert(events_view(evs@) =~= Seq::<EventView>::empty());
        }
        (q, evs)
    }

    pub fn request(&self) -> (r: QueueRequest)
        ensures
            r@ == queue_request(self@),
    {
        proof {
            use_type_invariant(self);
        }
        match self.at.phase {
            QueuePhase::Check => QueueRequest::Control { package: self.packages[self.at.index].clone() },
            QueuePhase::Upgrade => QueueRequest::Upgrade {
                package: self.packages[self.at.index].clone(),
                silent: self.op.next_silent(),
            },
            QueuePhase::Done => QueueRequest::Finished,
        }
    }

    /// The progress after the current package, and the events that go with it.
    fn advanced(&self, at: Progress, evs: &mut Vec<QueueEvent>) -> (next: Progress)
        requires
            at.index < self.packages@.len(),
            at.n_ok + at.n_err + at.n_skip == at.index + 1,
        ensures
            ({
                let v = QueueView {
                    index: at.index as nat,
                    n_ok: at.n_ok as nat,
                    n_err: at.n_err as nat,
                    n_skip: at.n_skip as nat,
                    phase: at.phase,
                    ..self@
                };
                let w = QueueView {
                    index: next.index as nat,
                    n_ok: next.n_ok as nat,
                    n_err: next.n_err as nat,
                    n_skip: next.n_skip as nat,
                    phase: next.phase,
                    ..self@
                };
                (w, events_view(final(evs)@)) == queue_advance(v, events_view(old(evs)@))
                    && w.wf()
            }),
    {
        let ghost e = events_view(evs@);
        let total = self.packages.len();
        let index = at.index + 1;
        if index == total {
            evs.push(QueueEvent::Output(summary_message(at.n_ok, at.n_err, at.n_skip)));
            evs.push(QueueEvent::Complete(OpStatus::Success));
            assert(events_view(evs@) =~= e + summary_events(
                at.n_ok as nat,
                at.n_err as nat,
                at.n_skip as nat,
            ));
            Progress { index, phase: QueuePhase::Done, ..at }
        } else {
            Progress { index, phase: QueuePhase::Check, ..at }
        }
    }

    /// What the control says for the current package: abort the queue,
    /// skip this package, or go on with it.
    pub fn on_control(&mut self, abort: bool, skip: bool) -> (evs: Vec<QueueEvent>)
        requires
            old(self)@.phase == QueuePhase::Check,
        ensures
            (final(self)@, events_view(evs@)) == queue_on_control(old(self)@, abort, skip),
            final(self)@.wf(),
            final(self)@.measure() < old(self)@.measure(),
    {
        proof {
            use_type_invariant(&*self);
        }
        let mut evs: Vec<QueueEvent> = Vec::new();
        let total = self.packages.len();
        let at = self.at;
        if abort {
            let n_skip = at.n_skip + (total - at.index);
            evs.push(QueueEvent::Output(owned("⛔  Aborted — remaining packages skipped.")));
            evs.push(QueueEvent::Output(summary_message(at.n_ok, at.n_err, n_skip)));
            evs.push(QueueEvent::Complete(OpStatus::Success));
            assert(events_view(evs@) =~= seq![EventView::Output(aborted_text())] + summary_events(
                at.n_ok as nat,
                at.n_err as nat,
                n_skip as nat,
            ));
            self.at = Progress { n_skip, phase: QueuePhase::Done, ..at };
            return evs;
        }
        let pkg = self.packages[at.index].clone();
        if skip {
            let msg = skipped_message(pkg.as_str());
            evs.push(QueueEvent::PkgDone { name: pkg, status: PkgStatus::Skipped });
            evs.push(QueueEvent::Output(msg));
            let next = self.advanced(Progress { n_skip: at.n_skip + 1, ..at }, &mut evs);
            self.at = next;
            return evs;
        }
        let msg = updating_message(pkg.as_str(), at.index + 1, total);
        evs.push(QueueEvent::PkgStart { name: pkg, index: at.index + 1, total });
        evs.push(QueueEvent::Output(msg));
        assert(events_view(evs@) =~= queue_on_control(old(self)@, abort, skip).1);
        self.op = OpRun::new(self.silent);
        self.at = Progress { phase: QueuePhase::Upgrade, ..at };
        evs
    }

    /// The outcome of one upgrade attempt of the current package.
    pub fn on_attempt(&mut self, ok: bool, output: String, exit_code: Option<i32>) -> (evs: Vec<
        QueueEvent,
    >)
        requires
            old(self)@.phase == QueuePhase::Upgrade,
        ensures
            (final(self)@, events_view(evs@)) == queue_on_attempt(
                old(self)@,
                ok,
                output@,
                exit_code,
            ),
            final(self)@.wf(),
            final(self)@.measure() < old(self)@.measure(),
    {
        proof {
            use_type_invariant(&*self);
        }
        let mut evs: Vec<QueueEvent> = Vec::new();
        let _total = self.packages.len();
        let at = self.at;
        let pkg = self.packages[at.index].clone();
        let (op, step) = self.op.record(ok, output, exit_code);
        self.op = op;
        match step {
            OpStep::RetryWithoutSilent => {
                evs.push(
                    QueueEvent::Output(
                        owned("⚠  Silent update failed — retrying without --silent…"),
                    ),
                );
                assert(events_view(evs@) =~= seq![EventView::Output(retry_text())]);
                evs
            },
            OpStep::Finished { ok, output, exit_code } => {
                let st = completion_status(ok, output.as_str(), exit_code);
                let counted = match st {
                    OpStatus::Success => Progress { n_ok: at.n_ok + 1, ..at },
                    _ => Progress { n_err: at.n_err + 1, ..at },
                };
                let msg = result_message(pkg.as_str(), st);
                let status = match st {
                    OpStatus::Success => PkgStatus::Success,
                    OpStatus::AppRunning => PkgStatus::AppRunning,
                    OpStatus::Error => PkgStatus::Error,
                };
                evs.push(QueueEvent::Output(msg));
                evs.push(QueueEvent::PkgDone { name: pkg, status });
                let next = self.advanced(counted, &mut evs);
                self.at = next;
                evs
            },
        }
    }
}

/// Every transition keeps the counters consistent and brings the queue
/// closer to its end.
pub proof fn law_queue_progress(v: QueueView, abort: bool, skip: bool, ok: bool, out: Seq<char>, code: Option<i32>)
    requires
        v.wf(),
    ensures
        v.phase == QueuePhase::Check ==> queue_on_control(v, abort, skip).0.wf()
            && queue_on_control(v, abort, skip).0.measure() < v.measure(),
        v.phase == QueuePhase::Upgrade ==> queue_on_attempt(v, ok, out, code).0.wf()
            && queue_on_attempt(v, ok, out, code).0.measure() < v.measure(),
{
}

/// When the queue is over, the summary accounts for every package exactly
/// once: updated + failed + skipped == number of packages.
pub proof fn law_done_accounts_for_all(v: QueueView)
    requires
        v.wf(),
        v.phase == QueuePhase::Done,
    ensures
        v.n_ok + v.n_err + v.n_skip == v.packages.len(),
{
}

/// After an abort no package is started any more: the queue is over and the
/// packages not reached are counted as skipped.
pub proof fn law_abort_ends_queue(v: QueueView, skip: bool)
    requires
        v.wf(),
        v.phase == QueuePhase::Check,
    ensures
        queue_on_control(v, true, skip).0.phase == QueuePhase::Done,
        queue_request(queue_on_control(v, true, skip).0) == RequestView::Finished,
        queue_on_control(v, true, skip).0.n_skip == v.n_skip + (v.packages.len() - v.index),
        queue_on_control(v, true, skip).0.n_ok == v.n_ok,
        queue_on_control(v, true, skip).0.n_err == v.n_err,
{
}

/// A skipped package is never upgraded: the queue goes straight on to the
/// next package (or ends).
pub proof fn law_skipped_not_upgraded(v: QueueView)
    requires
        v.wf(),
        v.phase == QueuePhase::Check,
    ensures
        queue_on_control(v, false, true).0.phase != QueuePhase::Upgrade,
        queue_on_control(v, false, true).0.n_skip == v.n_skip + 1,
{
}

/// Each package that is not skipped starts afresh, whatever happened to the
/// packages before it: its first attempt is silent exactly when the queue
/// is, a failed silent attempt is retried once interactively, and its
/// status is judged on its own attempts only (the retry on the output of
/// both).
pub proof fn law_each_package_starts_afresh(
    v: QueueView,
    ok: bool,
    out: Seq<char>,
    code: Option<i32>,
    ok2: bool,
    out2: Seq<char>,
    code2: Option<i32>,
)
    requires
        v.wf(),
        v.phase == QueuePhase::Check,
    ensures
        ({
            let w = queue_on_control(v, false, false).0;
            let pkg = v.packages[v.index as int];
            let (w1, ev1) = queue_on_attempt(w, ok, out, code);
            &&& queue_request(w) == (RequestView::Upgrade { package: pkg, silent: v.silent })
            &&& (!ok && v.silent) ==> ev1 == seq![EventView::Output(retry_text())] && queue_request(
                w1,
            ) == (RequestView::Upgrade { package: pkg, silent: false }) && queue_on_attempt(
                w1,
                ok2,
                out2,
                code2,
            ).1[1] == (EventView::PkgDone {
                name: pkg,
                status: pkg_status_of(spec_status(ok2, spec_to_lowercase(out + out2), code2)),
            })
            &&& (ok || !v.silent) ==> ev1[1] == (EventView::PkgDone {
                name: pkg,
                status: pkg_status_of(spec_status(ok, spec_to_lowercase(out), code)),
            })
        }),
{
    assert(Seq::<char>::empty() + out =~= out);
}

} // verus!
