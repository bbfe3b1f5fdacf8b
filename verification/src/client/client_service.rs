//! One client's session: send the message, wait for its echo, report it,
//! and go on until enough echoes were confirmed or something goes wrong.
use vstd::prelude::*;
use crate::client::reporting_service::ReportUpdate;

verus! {

/// Where a session stands.
#[derive(Debug, PartialEq, Eq, Structural, Clone, Copy)]
pub enum Phase {
    /// About to send the message (or waiting for a shutdown signal).
    Sending,
    /// The message went out; waiting for the server's reply.
    AwaitingReply,
    /// The echo matched; waiting for the reporter to take the update.
    Reporting,
    /// The session is over.
    Finished,
}

/// What happened to the session's connection or to its report.
pub enum ClientEvent {
    /// A shutdown was requested while the session was about to send.
    ShutdownSignal,
    /// The message was written to the server.
    SendCompleted,
    /// Writing the message failed.
    SendFailed,
    /// The server answered with this line.
    Reply(String),
    /// Reading the answer failed.
    ReceiveFailed,
    /// The server closed the connection.
    ConnectionClosed,
    /// The reporter took the update.
    ReportDelivered,
    /// The reporter is gone.
    ReportRejected,
}

/// What the session asks its driver to do.
pub enum ClientAction {
    /// Write this line to the server.
    Send(String),
    /// Read the server's next line.
    AwaitReply,
    /// Hand this update to the reporter.
    Report(ReportUpdate),
    /// End the session; this many messages were sent.
    Stop(u64),
    /// Nothing new: the event did not belong to the session's current phase.
    Wait,
}

/// Abstract state of a session.
pub struct SessionState {
    pub message: Seq<char>,
    pub max_count: u64,
    pub sent: u64,
    pub phase: Phase,
}

/// Abstract event.
pub enum EventView {
    ShutdownSignal,
    SendCompleted,
    SendFailed,
    Reply(Seq<char>),
    ReceiveFailed,
    ConnectionClosed,
    ReportDelivered,
    ReportRejected,
}

/// Abstract action.
pub enum ActionView {
    Send(Seq<char>),
    AwaitReply,
    Report(u64),
    Stop(u64),
    Wait,
}

impl View for ClientEvent {
    type V = EventView;

    open spec fn view(&self) -> EventView {
        match self {
            ClientEvent::ShutdownSignal => EventView::ShutdownSignal,
            ClientEvent::SendCompleted => EventView::SendCompleted,
            ClientEvent::SendFailed => EventView::SendFailed,
            ClientEvent::Reply(line) => EventView::Reply(line@),
            ClientEvent::ReceiveFailed => EventView::ReceiveFailed,
            ClientEvent::ConnectionClosed => EventView::ConnectionClosed,
            ClientEvent::ReportDelivered => EventView::ReportDelivered,
            ClientEvent::ReportRejected => EventView::ReportRejected,
        }
    }
}

impl View for ClientAction {
    type V = ActionView;

    open spec fn view(&self) -> ActionView {
        match self {
            ClientAction::Send(line) => ActionView::Send(line@),
            ClientAction::AwaitReply => ActionView::AwaitReply,
            ClientAction::Report(update) => ActionView::Report(update.count),
            ClientAction::Stop(sent) => ActionView::Stop(*sent),
            ClientAction::Wait => ActionView::Wait,
        }
    }
}

/// The bounds every session keeps: at least one echo is waited for, never
/// more messages are sent than that, and a message is only about to be sent
/// while fewer than `max_count` went out.
pub open spec fn session_ok(s: SessionState) -> bool {
    &&& s.max_count > 0
    &&& s.sent <= s.max_count
    &&& s.phase == Phase::Sending ==> s.sent < s.max_count
    &&& (s.phase == Phase::AwaitingReply || s.phase == Phase::Reporting) ==> s.sent >= 1
}

/// A fresh session.
pub open spec fn initial_session(message: Seq<char>, max_count: u64) -> SessionState {
    SessionState { message, max_count, sent: 0, phase: Phase::Sending }
}

/// What the session asks for while it stands in its phase.
pub open spec fn pending_action(s: SessionState) -> ActionView {
    match s.phase {
        Phase::Sending => ActionView::Send(s.message),
        Phase::AwaitingReply => ActionView::AwaitReply,
        Phase::Reporting => ActionView::Report(1),
        Phase::Finished => ActionView::Stop(s.sent),
    }
}

/// The answer to an event that does not belong to the current phase: a
/// finished session stays stopped; any other session waits on.
pub open spec fn ignored_action(s: SessionState) -> ActionView {
    if s.phase == Phase::Finished {
        ActionView::Stop(s.sent)
    } else {
        ActionView::Wait
    }
}

/// The session ends with the number of messages it sent.
pub open spec fn finish(s: SessionState) -> (SessionState, ActionView) {
    (SessionState { phase: Phase::Finished, ..s }, ActionView::Stop(s.sent))
}

/// One step of a session. An event that does not belong to the current
/// phase changes nothing and asks for nothing new.
pub open spec fn next(s: SessionState, e: EventView) -> (SessionState, ActionView) {
    match (s.phase, e) {
        (Phase::Sending, EventView::ShutdownSignal) => finish(s),
        (Phase::Sending, EventView::SendFailed) => finish(s),
        (Phase::Sending, EventView::SendCompleted) => {
            let t = SessionState { sent: (s.sent + 1) as u64, phase: Phase::AwaitingReply, ..s };
            (t, ActionView::AwaitReply)
        },
        (Phase::AwaitingReply, EventView::Reply(line)) => {
            if line == s.message {
                (SessionState { phase: Phase::Reporting, ..s }, ActionView::Report(1))
            } else {
                finish(s)
            }
        },
        (Phase::AwaitingReply, EventView::ReceiveFailed) => finish(s),
        (Phase::AwaitingReply, EventView::ConnectionClosed) => finish(s),
        (Phase::Reporting, EventView::ReportRejected) => finish(s),
        (Phase::Reporting, EventView::ReportDelivered) => {
            if s.sent >= s.max_count {
                finish(s)
            } else {
                (SessionState { phase: Phase::Sending, ..s }, ActionView::Send(s.message))
            }
        },
        _ => (s, ignored_action(s)),
    }
}

/// The state after a sequence of events.
pub open spec fn run_events(s: SessionState, events: Seq<EventView>) -> SessionState
    decreases events.len(),
{
    if events.len() == 0 {
        s
    } else {
        run_events(next(s, events[0]).0, events.drop_first())
    }
}

/// Number of updates a session hands to the reporter over a sequence of events.
pub open spec fn reports_in(s: SessionState, events: Seq<EventView>) -> nat
    decreases events.len(),
{
    if events.len() == 0 {
        0
    } else {
        let (t, a) = next(s, events[0]);
        (if a is Report { 1nat } else { 0nat }) + reports_in(t, events.drop_first())
    }
}

/// One round with a faithful server and a live reporter.
pub open spec fn happy_round(message: Seq<char>) -> Seq<EventView> {
    seq![EventView::SendCompleted, EventView::Reply(message), EventView::ReportDelivered]
}

/// `k` such rounds.
pub open spec fn happy_rounds(message: Seq<char>, k: nat) -> Seq<EventView>
    decreases k,
{
    if k == 0 {
        Seq::empty()
    } else {
        happy_rounds(message, (k - 1) as nat) + happy_round(message)
    }
}

/// Every step keeps the session's bounds, its message and its target.
pub proof fn lemma_next_keeps_bounds(s: SessionState, e: EventView)
    requires
        session_ok(s),
    ensures
        session_ok(next(s, e).0),
        next(s, e).0.message == s.message,
        next(s, e).0.max_count == s.max_count,
{
}

/// The only line a session ever sends is its own message.
pub proof fn lemma_sends_only_message(s: SessionState, e: EventView)
    requires
        session_ok(s),
    ensures
        next(s, e).1 matches ActionView::Send(line) ==> line == s.message,
{
}

/// A reply that differs from the message ends the session at once, with
/// the mismatched message counted as sent.
pub proof fn lemma_mismatch_stops(s: SessionState, line: Seq<char>)
    requires
        s.phase == Phase::AwaitingReply,
        line != s.message,
    ensures
        next(s, EventView::Reply(line)).0.phase == Phase::Finished,
        next(s, EventView::Reply(line)).1 == ActionView::Stop(s.sent),
{
}

/// Running two sequences of events one after the other.
pub proof fn lemma_run_events_append(s: SessionState, a: Seq<EventView>, b: Seq<EventView>)
    ensures
        run_events(s, a + b) == run_events(run_events(s, a), b),
    decreases a.len(),
{
    if a.len() > 0 {
        assert((a + b).drop_first() =~= a.drop_first() + b);
        assert((a + b)[0] == a[0]);
        lemma_run_events_append(next(s, a[0]).0, a.drop_first(), b);
    } else {
        assert(a + b =~= b);
    }
}

/// Counting reports over two sequences of events run one after the other.
pub proof fn lemma_reports_in_append(s: SessionState, a: Seq<EventView>, b: Seq<EventView>)
    ensures
        reports_in(s, a + b) == reports_in(s, a) + reports_in(run_events(s, a), b),
    decreases a.len(),
{
    if a.len() > 0 {
        assert((a + b).drop_first() =~= a.drop_first() + b);
        assert((a + b)[0] == a[0]);
        lemma_reports_in_append(next(s, a[0]).0, a.drop_first(), b);
    } else {
        assert(a + b =~= b);
    }
}

/// With a server that echoes faithfully and a reporter that takes every
/// update, a session sends its message again and again: after `k` rounds,
/// `k < max_count`, it has sent `k` messages and is about to send the next.
pub proof fn lemma_happy_rounds(message: Seq<char>, max_count: u64, k: nat)
    requires
        k < max_count,
    ensures
        run_events(initial_session(message, max_count), happy_rounds(message, k))
            == (SessionState { message, max_count, sent: k as u64, phase: Phase::Sending }),
    decreases k,
{
    let s0 = initial_session(message, max_count);
    if k == 0 {
        assert(happy_rounds(message, 0) =~= Seq::<EventView>::empty());
    } else {
        lemma_happy_rounds(message, max_count, (k - 1) as nat);
        lemma_run_events_append(s0, happy_rounds(message, (k - 1) as nat), happy_round(message));
        let mid = run_events(s0, happy_rounds(message, (k - 1) as nat));
        lemma_round_from_sending(mid);
    }
}

/// One faithful round from a session about to send.
proof fn lemma_round_from_sending(s: SessionState)
    requires
        session_ok(s),
        s.phase == Phase::Sending,
    ensures
        reports_in(s, happy_round(s.message)) == 1,
        run_events(s, happy_round(s.message)) == (if s.sent + 1 >= s.max_count {
            SessionState { sent: (s.sent + 1) as u64, phase: Phase::Finished, ..s }
        } else {
            SessionState { sent: (s.sent + 1) as u64, ..s }
        }),
        next(next(next(s, EventView::SendCompleted).0, EventView::Reply(s.message)).0, EventView::ReportDelivered).1
            == (if s.sent + 1 >= s.max_count {
            ActionView::Stop((s.sent + 1) as u64)
        } else {
            ActionView::Send(s.message)
        }),
{
    let r = happy_round(s.message);
    let s1 = next(s, r[0]).0;
    let s2 = next(s1, r[1]).0;
    let s3 = next(s2, r[2]).0;
    assert(r.drop_first().drop_first().drop_first() =~= Seq::<EventView>::empty());
    assert(r.drop_first()[0] == r[1]);
    assert(r.drop_first().drop_first()[0] == r[2]);
    assert(run_events(s3, r.drop_first().drop_first().drop_first()) == s3);
    assert(run_events(s2, r.drop_first().drop_first()) == s3);
    assert(run_events(s1, r.drop_first()) == s3);
    assert(reports_in(s3, r.drop_first().drop_first().drop_first()) == 0);
    assert(reports_in(s2, r.drop_first().drop_first()) == 0);
    assert(reports_in(s1, r.drop_first()) == 1);
}

/// Over `k <= max_count` faithful rounds a session hands exactly `k` updates
/// to the reporter, one per confirmed echo.
pub proof fn lemma_happy_reports(message: Seq<char>, max_count: u64, k: nat)
    requires
        k <= max_count,
        max_count > 0,
    ensures
        reports_in(initial_session(message, max_count), happy_rounds(message, k)) == k,
    decreases k,
{
    let s0 = initial_session(message, max_count);
    if k == 0 {
        assert(happy_rounds(message, 0) =~= Seq::<EventView>::empty());
    } else {
        lemma_happy_reports(message, max_count, (k - 1) as nat);
        lemma_happy_rounds(message, max_count, (k - 1) as nat);
        lemma_reports_in_append(s0, happy_rounds(message, (k - 1) as nat), happy_round(message));
        let mid = run_events(s0, happy_rounds(message, (k - 1) as nat));
        lemma_round_from_sending(mid);
    }
}

/// With a faithful server and a live reporter, a session sends exactly
/// `max_count` messages, hands exactly `max_count` updates to the reporter,
/// and then stops with `max_count`; the last event of the last round yields
/// that stop.
pub proof fn lemma_happy_session_completes(message: Seq<char>, max_count: u64)
    requires
        max_count > 0,
    ensures
        run_events(initial_session(message, max_count), happy_rounds(message, max_count as nat))
            == (SessionState { message, max_count, sent: max_count, phase: Phase::Finished }),
        reports_in(initial_session(message, max_count), happy_rounds(message, max_count as nat)) == max_count,
        ({
            let before = run_events(initial_session(message, max_count), happy_rounds(message, (max_count - 1) as nat));
            let s1 = next(before, EventView::SendCompleted).0;
            let s2 = next(s1, EventView::Reply(message)).0;
            next(s2, EventView::ReportDelivered).1 == ActionView::Stop(max_count)
        }),
{
    let s0 = initial_session(message, max_count);
    let k = (max_count - 1) as nat;
    lemma_happy_rounds(message, max_count, k);
    lemma_run_events_append(s0, happy_rounds(message, k), happy_round(message));
    let mid = run_events(s0, happy_rounds(message, k));
    lemma_round_from_sending(mid);
    lemma_happy_reports(message, max_count, max_count as nat);
}

/// Number of echoes of its own message that a session took while waiting
/// for a reply.
pub open spec fn echoes_in(s: SessionState, events: Seq<EventView>) -> nat
    decreases events.len(),
{
    if events.len() == 0 {
        0
    } else {
        (if s.phase == Phase::AwaitingReply && events[0] == EventView::Reply(s.message) { 1nat } else { 0nat })
            + echoes_in(next(s, events[0]).0, events.drop_first())
    }
}

/// Messages sent whose echo has been dealt with: all sent messages, less the
/// one whose reply is still awaited.
pub open spec fn settled(s: SessionState) -> int {
    s.sent - (if s.phase == Phase::AwaitingReply { 1int } else { 0int })
}

/// A finished session stays as it is and reports nothing more.
pub proof fn lemma_finished_absorbs(s: SessionState, events: Seq<EventView>)
    requires
        s.phase == Phase::Finished,
    ensures
        run_events(s, events) == s,
        reports_in(s, events) == 0,
        echoes_in(s, events) == 0,
    decreases events.len(),
{
    if events.len() > 0 {
        lemma_finished_absorbs(next(s, events[0]).0, events.drop_first());
    }
}

/// Over any sequence of events, a session hands one update to the reporter
/// for each echo of its message and for nothing else, and the updates keep
/// pace with the messages sent: each step settles at most one message, and
/// only the step that ends the session on a failed or wrong reply leaves one
/// settled message unreported.
pub proof fn lemma_reports_follow_echoes(s: SessionState, events: Seq<EventView>)
    requires
        session_ok(s),
    ensures
        reports_in(s, events) == echoes_in(s, events),
        reports_in(s, events) <= settled(run_events(s, events)) - settled(s),
        reports_in(s, events) + 1 >= settled(run_events(s, events)) - settled(s),
        run_events(s, events).phase != Phase::Finished
            ==> reports_in(s, events) == settled(run_events(s, events)) - settled(s),
        run_events(s, events).sent >= s.sent,
    decreases events.len(),
{
    if events.len() > 0 {
        let e = events[0];
        let t1 = next(s, e).0;
        lemma_next_keeps_bounds(s, e);
        lemma_reports_follow_echoes(t1, events.drop_first());
        if t1.phase == Phase::Finished && s.phase == Phase::AwaitingReply {
            lemma_finished_absorbs(t1, events.drop_first());
        }
    }
}

/// From a fresh session, over any sequence of events: the reporter receives
/// exactly one update per echo of the message, never more updates than
/// messages sent, and at most one sent message goes unreported. While the
/// session runs, every message sent is reported except one whose reply is
/// still awaited.
pub proof fn lemma_reports_track_sends(message: Seq<char>, max_count: u64, events: Seq<EventView>)
    requires
        max_count > 0,
    ensures
        ({
            let s0 = initial_session(message, max_count);
            let t = run_events(s0, events);
            let r = reports_in(s0, events);
            &&& r == echoes_in(s0, events)
            &&& r <= t.sent
            &&& t.sent <= r + 1
            &&& (t.phase == Phase::Sending || t.phase == Phase::Reporting) ==> r == t.sent
            &&& t.phase == Phase::AwaitingReply ==> r + 1 == t.sent
        }),
{
    lemma_reports_follow_echoes(initial_session(message, max_count), events);
}

/// A fresh session, whatever its target, first asks to send its message.
pub proof fn lemma_fresh_session_sends(message: Seq<char>, max_count: u64)
    requires
        max_count > 0,
    ensures
        pending_action(initial_session(message, max_count)) == ActionView::Send(message),
{
}

/// What a step asks for is what the session keeps asking for until the next
/// event: the action a step returns (other than `Wait`) is the action the
/// session reports for the state it moved to. In particular a session that
/// was told to send again asks to send its own message.
pub proof fn lemma_step_action_persists(s: SessionState, e: EventView)
    requires
        session_ok(s),
    ensures
        next(s, e).1 != ActionView::Wait ==> pending_action(next(s, e).0) == next(s, e).1,
        next(s, e).0.phase == Phase::Sending ==> pending_action(next(s, e).0) == ActionView::Send(s.message),
{
}

/// A client's session with the server.
pub struct ClientSession {
    id: usize,
    message: String,
    max_count: u64,
    sent: u64,
    phase: Phase,
}

impl View for ClientSession {
    type V = SessionState;

    closed spec fn view(&self) -> SessionState {
        SessionState { message: self.message@, max_count: self.max_count, sent: self.sent, phase: self.phase }
    }
}

impl ClientSession {
    /// The id the client was given.
    pub closed spec fn id_spec(&self) -> usize {
        self.id
    }

    /// A session that is to confirm `max_count` echoes of `message`.
    pub fn new(id: usize, message: String, max_count: u64) -> (session: Self)
        requires
            max_count > 0,
        ensures
            session@ == initial_session(message@, max_count),
            session.id_spec() == id,
            session_ok(session@),
    {
        ClientSession { id, message, max_count, sent: 0, phase: Phase::Sending }
    }

    /// The id the client was given.
    pub fn id(&self) -> (id: usize)
        ensures
            id == self.id_spec(),
    {
        self.id
    }

    /// Messages sent so far.
    pub fn sent(&self) -> (sent: u64)
        ensures
            sent == self@.sent,
    {
        self.sent
    }

    /// Where the session stands.
    pub fn phase(&self) -> (phase: Phase)
        ensures
            phase == self@.phase,
    {
        self.phase
    }

    /// What the session asks for in its current phase (at the start: send
    /// the message).
    pub fn current_action(&self) -> (action: ClientAction)
        ensures
            action@ == pending_action(self@),
            self@.phase == Phase::Sending ==> action@ == ActionView::Send(self@.message),
            self@.phase == Phase::Finished ==> action@ == ActionView::Stop(self@.sent),
    {
        match self.phase {
            Phase::Sending => ClientAction::Send(self.message.clone()),
            Phase::AwaitingReply => ClientAction::AwaitReply,
            Phase::Reporting => ClientAction::Report(ReportUpdate { count: 1 }),
            Phase::Finished => ClientAction::Stop(self.sent),
        }
    }

    fn finish(&mut self) -> (action: ClientAction)
        ensures
            (final(self)@, action@) == finish(old(self)@),
            final(self).id_spec() == old(self).id_spec(),
    {
        self.phase = Phase::Finished;
        ClientAction::Stop(self.sent)
    }

    /// Takes the next event and says what to do next.
    pub fn step(&mut self, event: ClientEvent) -> (action: ClientAction)
        requires
            session_ok(old(self)@),
        ensures
            (final(self)@, action@) == next(old(self)@, event@),
            session_ok(final(self)@),
            final(self).id_spec() == old(self).id_spec(),
    {
        proof { lemma_next_keeps_bounds(self@, event@); }
        match (self.phase, event) {
            (Phase::Sending, ClientEvent::ShutdownSignal) => self.finish(),
            (Phase::Sending, ClientEvent::SendFailed) => self.finish(),
            (Phase::Sending, ClientEvent::SendCompleted) => {
                self.sent = self.sent + 1;
                self.phase = Phase::AwaitingReply;
                ClientAction::AwaitReply
            },
            (Phase::AwaitingReply, ClientEvent::Reply(line)) => {
                if line == self.message {
                    self.phase = Phase::Reporting;
                    ClientAction::Report(ReportUpdate { count: 1 })
                } else {
                    self.finish()
                }
            },
            (Phase::AwaitingReply, ClientEvent::ReceiveFailed) => self.finish(),
            (Phase::AwaitingReply, ClientEvent::ConnectionClosed) => self.finish(),
            (Phase::Reporting, ClientEvent::ReportRejected) => self.finish(),
            (Phase::Reporting, ClientEvent::ReportDelivered) => {
                if self.sent >= self.max_count {
                    self.finish()
                } else {
                    self.phase = Phase::Sending;
                    ClientAction::Send(self.message.clone())
                }
            },
            _ => {
                if self.phase == Phase::Finished {
                    ClientAction::Stop(self.sent)
                } else {
                    ClientAction::Wait
                }
            },
        }
    }
}

} // verus!
