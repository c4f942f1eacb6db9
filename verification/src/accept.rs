//! The policy of the accept loop: which incoming connections become
//! sessions, which are dropped, and what ends the loop.
//!
//! A handshake that fails costs that one connection and nothing else. Only a
//! failure of the listener itself ends the loop.

use vstd::prelude::*;

verus! {

/// What the TLS listener reports for one incoming connection.
///
/// `S` is the secure session, `E` the error of the listener.
#[derive(Debug, PartialEq, Eq)]
pub enum Incoming<S, E> {
    /// The handshake completed.
    Session(S),
    /// The handshake failed: wrong protocol version, no common cipher, a
    /// client that gave up, a malformed record.
    HandshakeFailed(E),
    /// The listener itself failed to accept.
    ListenerFailed(E),
}

/// What the accept loop does about one report.
#[derive(Debug, PartialEq, Eq)]
pub enum Step<S, E> {
    /// Hand the session to the HTTP layer.
    Yield(S),
    /// Report the error and go on accepting.
    Discard(E),
    /// Report the error and stop accepting.
    Stop(E),
    /// The loop had stopped before; the report is dropped.
    Closed,
}

/// The step taken on `event` by a loop that has or has not stopped.
pub open spec fn step_of<S, E>(stopped: bool, event: Incoming<S, E>) -> Step<S, E> {
    if stopped {
        Step::Closed
    } else {
        match event {
            Incoming::Session(session) => Step::Yield(session),
            Incoming::HandshakeFailed(why) => Step::Discard(why),
            Incoming::ListenerFailed(why) => Step::Stop(why),
        }
    }
}

/// Whether the loop has stopped once `event` is dealt with.
pub open spec fn stops<S, E>(stopped: bool, event: Incoming<S, E>) -> bool {
    stopped || event is ListenerFailed
}

/// The sessions that an accepting loop hands on when the listener reports
/// `events` in turn: each session up to the first failure of the listener, in
/// the order of the reports, and nothing from there on.
pub open spec fn yielded<S, E>(events: Seq<Incoming<S, E>>) -> Seq<S>
    decreases events.len(),
{
    if events.len() == 0 {
        Seq::empty()
    } else {
        match events.first() {
            Incoming::Session(session) => seq![session] + yielded(events.drop_first()),
            Incoming::HandshakeFailed(_) => yielded(events.drop_first()),
            Incoming::ListenerFailed(_) => Seq::empty(),
        }
    }
}

/// The sessions handed on by a loop that has or has not stopped before.
pub open spec fn yielded_from<S, E>(stopped: bool, events: Seq<Incoming<S, E>>) -> Seq<S> {
    if stopped {
        Seq::empty()
    } else {
        yielded(events)
    }
}

/// Whether the listener fails somewhere in `events`.
pub open spec fn listener_fails<S, E>(events: Seq<Incoming<S, E>>) -> bool {
    exists|i: int| 0 <= i < events.len() && #[trigger] events[i] is ListenerFailed
}

/// The state of the accept loop.
#[derive(Debug, Clone, Copy, PartialEq, Eq)]
pub struct AcceptFilter {
    stopped: bool,
}

impl AcceptFilter {
    /// Whether the listener has failed.
    pub closed spec fn stopped(&self) -> bool {
        self.stopped
    }

    /// A loop that is accepting.
    pub fn new() -> (filter: AcceptFilter)
        ensures
            !filter.stopped(),
    {
        AcceptFilter { stopped: false }
    }

    /// Whether the listener has failed.
    pub fn is_stopped(&self) -> (stopped: bool)
        ensures
            stopped == self.stopped(),
    {
        self.stopped
    }

    /// Deals with one report of the listener.
    pub fn on_event<S, E>(&mut self, event: Incoming<S, E>) -> (step: Step<S, E>)
        ensures
            step == step_of(old(self).stopped(), event),
            final(self).stopped() == stops(old(self).stopped(), event),
    {
        if self.stopped {
            return Step::Closed;
        }
        match event {
            Incoming::Session(session) => Step::Yield(session),
            Incoming::HandshakeFailed(why) => Step::Discard(why),
            Incoming::ListenerFailed(why) => {
                self.stopped = true;
                Step::Stop(why)
            },
        }
    }
}

impl AcceptFilter {
    /// Deals with a batch of reports in turn and returns the sessions to hand
    /// on.
    pub fn drain<S, E>(&mut self, events: Vec<Incoming<S, E>>) -> (sessions: Vec<S>)
        ensures
            sessions@ == yielded_from(old(self).stopped(), events@),
            final(self).stopped() == (old(self).stopped() || listener_fails(events@)),
    {
        let ghost all = events@;
        let ghost before = self.stopped();
        let mut sessions: Vec<S> = Vec::new();
        proof {
            assert(all.skip(0) == all);
        }
        for event in it: events
            invariant
                all == it.seq(),
                yielded_from(before, all) == sessions@ + yielded_from(
                    self.stopped(),
                    all.skip(it.index() as int),
                ),
                self.stopped() == (before || listener_fails(all.take(it.index() as int))),
        {
            let ghost i = it.index() as int;
            proof {
                assert(all.skip(i).drop_first() == all.skip(i + 1));
                lemma_listener_fails_push(all.take(i), all[i]);
                assert(all.take(i + 1) == all.take(i).push(all[i]));
            }
            match self.on_event(event) {
                Step::Yield(session) => {
                    sessions.push(session);
                },
                _ => {},
            }
        }
        sessions
    }
}

/// The listener fails in a list with one more report exactly when it fails
/// in the list or the new report is its failure.
proof fn lemma_listener_fails_push<S, E>(events: Seq<Incoming<S, E>>, event: Incoming<S, E>)
    ensures
        listener_fails(events.push(event)) == (listener_fails(events) || event is ListenerFailed),
{
    let longer = events.push(event);
    if listener_fails(events) {
        let i = choose|i: int| 0 <= i < events.len() && #[trigger] events[i] is ListenerFailed;
        assert(longer[i] is ListenerFailed);
    }
    if event is ListenerFailed {
        assert(longer[events.len() as int] is ListenerFailed);
    }
    if listener_fails(longer) {
        let i = choose|i: int| 0 <= i < longer.len() && #[trigger] longer[i] is ListenerFailed;
        assert(i < events.len() ==> events[i] is ListenerFailed);
    }
}

/// A failed handshake takes nothing from the connections around it: the
/// sessions handed on are the same as if the failed attempt had never come.
pub proof fn lemma_failed_handshake_is_skipped<S, E>(
    before: Seq<Incoming<S, E>>,
    why: E,
    after: Seq<Incoming<S, E>>,
)
    ensures
        yielded(before + seq![Incoming::HandshakeFailed(why)] + after) == yielded(before + after),
    decreases before.len(),
{
    let failed = Incoming::<S, E>::HandshakeFailed(why);
    let with = before + seq![failed] + after;
    if before.len() == 0 {
        assert(with.drop_first() == after);
    } else {
        lemma_failed_handshake_is_skipped(before.drop_first(), why, after);
        assert(with.drop_first() == before.drop_first() + seq![failed] + after);
        assert((before + after).drop_first() == before.drop_first() + after);
    }
}

/// While the listener has not failed, what comes later is served as if it
/// came first: the sessions of two runs of reports, one after the other, are
/// those of the first run and then those of the second.
pub proof fn lemma_yielded_concat<S, E>(before: Seq<Incoming<S, E>>, after: Seq<Incoming<S, E>>)
    requires
        !listener_fails(before),
    ensures
        yielded(before + after) == yielded(before) + yielded(after),
    decreases before.len(),
{
    if before.len() > 0 {
        let rest = before.drop_first();
        assert forall|i: int| 0 <= i < rest.len() implies !(#[trigger] rest[i] is ListenerFailed) by {
            assert(rest[i] == before[i + 1]);
        }
        assert(!(before[0] is ListenerFailed));
        lemma_yielded_concat(rest, after);
        assert((before + after).drop_first() == rest + after);
    }
}

/// Once the listener has failed nothing more is handed on, whatever is
/// reported after the failure.
pub proof fn lemma_listener_failure_ends<S, E>(
    before: Seq<Incoming<S, E>>,
    why: E,
    after: Seq<Incoming<S, E>>,
)
    ensures
        yielded(before + seq![Incoming::ListenerFailed(why)] + after) == yielded(before),
    decreases before.len(),
{
    let failed = Incoming::<S, E>::ListenerFailed(why);
    let with = before + seq![failed] + after;
    if before.len() > 0 {
        lemma_listener_failure_ends(before.drop_first(), why, after);
        assert(with.drop_first() == before.drop_first() + seq![failed] + after);
    }
}

/// Where every handshake completes and the listener holds, every connection
/// becomes a session, in the order of arrival.
pub proof fn lemma_sessions_pass<S, E>(sessions: Seq<S>)
    ensures
        yielded(sessions.map_values(|session: S| Incoming::<S, E>::Session(session))) == sessions,
    decreases sessions.len(),
{
    let events = sessions.map_values(|session: S| Incoming::<S, E>::Session(session));
    if sessions.len() > 0 {
        lemma_sessions_pass::<S, E>(sessions.drop_first());
        assert(events.drop_first() == sessions.drop_first().map_values(
            |session: S| Incoming::<S, E>::Session(session),
        ));
    }
}

} // verus!
