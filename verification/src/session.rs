//! The channel session state machine.
//!
//! A session owns one connection, conceptually split into a send half and a
//! receive half.  Three concurrent activities share it without a lock — an
//! outbound writer, an inbound reader and a heartbeat ticker — and meet only
//! in two bounded queues, both owned here: the outbound frame queue (writer
//! consumes; caller and heartbeat produce) and the inbound decoded-event
//! queue (reader produces; the caller's event loop consumes).  This module
//! holds every decision those activities take — what enters and leaves each
//! queue, when a heartbeat is due, and what closing means — as a state
//! machine over plain values; the I/O shell around it performs the sends,
//! receives and sleeps and feeds the results back in.
//!
//! Each step is specified exactly by a `spec_*` transition function over the
//! session's mathematical state [`SessionV`], and the laws at the end are
//! proved over those transitions: a malformed or unrecognised message is
//! dropped without terminating the session, heartbeats are emitted at the
//! configured period only while the session is open, and a closed, drained
//! session never delivers again.

use vstd::prelude::*;

use crate::envelope::event_of_text;
use crate::protocol::{frame_text_of, heartbeat_frame_text, join_frame_text, Collection,
    PhoenixMessage};
use crate::schema::{StreamEvent, StreamEventV};

verus! {

/// Seconds between liveness heartbeats.
pub const HEARTBEAT_PERIOD_SECS: u64 = 30;

/// Outbound frames buffered at most; producers wait when it is full.
pub const OUTBOUND_CAPACITY: usize = 4;

/// Inbound events buffered at most; a full queue throttles the reader.
pub const INBOUND_CAPACITY: usize = 1024;

/// Whether the session still owns a live connection.  `Closed` is terminal:
/// no reconnection is attempted at this layer.
#[derive(PartialEq, Eq, Structural, Clone, Copy, Debug)]
pub enum SessionState {
    Open,
    Closed,
}

/// What became of one inbound text frame.
#[derive(PartialEq, Eq, Structural, Clone, Copy, Debug)]
pub enum IngestOutcome {
    /// The frame carried a domain event and it was queued.
    Delivered,
    /// The frame carried no domain event (a reply, a malformed message or
    /// an unrecognised event type); it was discarded and the session goes
    /// on.
    Dropped,
    /// The inbound queue is full; nothing changed, the reader must wait.
    Full,
    /// The session is closed; nothing changed.
    Closed,
}

/// Why a subscription was refused.
#[derive(PartialEq, Eq, Structural, Clone, Copy, Debug)]
pub enum SessionError {
    /// The session is closed.
    Closed,
    /// The outbound queue is full; the caller must wait.
    QueueFull,
}

/// The mathematical state of a session: whether it is open, the texts of
/// the queued outbound frames in order, the queued inbound events in order,
/// and when the next heartbeat is due.
pub struct SessionV {
    pub open: bool,
    pub outbound: Seq<Seq<char>>,
    pub inbound: Seq<StreamEventV>,
    pub next_heartbeat: u64,
}

/// A channel session.
pub struct Session {
    state: SessionState,
    outbound: Vec<PhoenixMessage>,
    inbound: Vec<StreamEvent>,
    next_heartbeat: u64,
}

impl View for Session {
    type V = SessionV;

    closed spec fn view(&self) -> SessionV {
        SessionV {
            open: self.state == SessionState::Open,
            outbound: Seq::new(self.outbound@.len(), |i: int| frame_text_of(self.outbound@[i])),
            inbound: Seq::new(self.inbound@.len(), |i: int| self.inbound@[i].deep_view()),
            next_heartbeat: self.next_heartbeat,
        }
    }
}

// -------------------------------------------------------------------------
// The transitions.
// -------------------------------------------------------------------------

/// A fresh session: open, both queues empty, first heartbeat due at once.
pub open spec fn spec_connect(now: u64) -> SessionV {
    SessionV {
        open: true,
        outbound: Seq::empty(),
        inbound: Seq::empty(),
        next_heartbeat: now,
    }
}

/// Queue a topic-join frame: refused synchronously after close, waited out
/// when the outbound queue is full, queued in FIFO order otherwise.
pub open spec fn spec_subscribe(s: SessionV, c: Collection) -> (SessionV, Result<
    (),
    SessionError,
>) {
    if !s.open {
        (s, Err(SessionError::Closed))
    } else if s.outbound.len() >= OUTBOUND_CAPACITY {
        (s, Err(SessionError::QueueFull))
    } else {
        (SessionV { outbound: s.outbound.push(join_frame_text(c)), ..s }, Ok(()))
    }
}

/// The heartbeat tick: while the session is open, a heartbeat frame is
/// queued whenever its period has elapsed and the queue has room, and the
/// next one falls due one period later; once closed, nothing is ever
/// emitted.
pub open spec fn spec_heartbeat(s: SessionV, now: u64) -> (SessionV, bool) {
    if s.open && now >= s.next_heartbeat && s.outbound.len() < OUTBOUND_CAPACITY {
        (
            SessionV {
                outbound: s.outbound.push(heartbeat_frame_text()),
                next_heartbeat: (now + HEARTBEAT_PERIOD_SECS) as u64,
                ..s
            },
            true,
        )
    } else {
        (s, false)
    }
}

/// One inbound text frame: on an open session, the frame's domain event —
/// if it carries one — is queued; a frame carrying none is dropped and the
/// session goes on; a full queue changes nothing and reports backpressure;
/// a closed session ignores everything.
pub open spec fn spec_ingest(s: SessionV, text: Seq<u8>) -> (SessionV, IngestOutcome) {
    if !s.open {
        (s, IngestOutcome::Closed)
    } else {
        match event_of_text(text) {
            None => (s, IngestOutcome::Dropped),
            Some(e) => {
                if s.inbound.len() < INBOUND_CAPACITY {
                    (SessionV { inbound: s.inbound.push(e), ..s }, IngestOutcome::Delivered)
                } else {
                    (s, IngestOutcome::Full)
                }
            },
        }
    }
}

/// The writer takes the oldest queued frame, if any.
pub open spec fn spec_next_outbound(s: SessionV) -> (SessionV, Option<Seq<char>>) {
    if s.outbound.len() == 0 {
        (s, None)
    } else {
        (
            SessionV { outbound: s.outbound.subrange(1, s.outbound.len() as int), ..s },
            Some(s.outbound[0]),
        )
    }
}

/// The caller takes the oldest queued event; with nothing queued it gets
/// nothing and the state does not change, so on a closed session every
/// later call gets nothing too.
pub open spec fn spec_next_event(s: SessionV) -> (SessionV, Option<StreamEventV>) {
    if s.inbound.len() == 0 {
        (s, None)
    } else {
        (SessionV { inbound: s.inbound.subrange(1, s.inbound.len() as int), ..s }, Some(
            s.inbound[0],
        ))
    }
}

/// Closing — a send or receive failure, a non-text frame, or the caller
/// dropping the session — is terminal.
pub open spec fn spec_close(s: SessionV) -> SessionV {
    SessionV { open: false, ..s }
}

// -------------------------------------------------------------------------
// The executable session.
// -------------------------------------------------------------------------

impl Session {
    /// Opens a fresh session.  The transport handshake itself happens
    /// outside; a session value exists only once it has succeeded.
    pub fn connect(now: u64) -> (s: Session)
        ensures
            s@ == spec_connect(now),
    {
        let s = Session {
            state: SessionState::Open,
            outbound: Vec::new(),
            inbound: Vec::new(),
            next_heartbeat: now,
        };
        proof {
            assert(s@.outbound =~= Seq::<Seq<char>>::empty());
            assert(s@.inbound =~= Seq::<StreamEventV>::empty());
            assert(s@ =~~= spec_connect(now));
        }
        s
    }

    /// Whether the session is still open.
    pub fn is_open(&self) -> (r: bool)
        ensures
            r == self@.open,
    {
        self.state == SessionState::Open
    }

    /// Queues a join frame for the writer, first come first served.
    pub fn subscribe(&mut self, c: Collection) -> (r: Result<(), SessionError>)
        ensures
            (final(self)@, r) == spec_subscribe(old(self)@, c),
    {
        if self.state != SessionState::Open {
            return Err(SessionError::Closed);
        }
        if self.outbound.len() >= OUTBOUND_CAPACITY {
            return Err(SessionError::QueueFull);
        }
        let ghost before = self@;
        self.outbound.push(PhoenixMessage::Subscribe(c));
        proof {
            assert(self@.outbound =~= before.outbound.push(join_frame_text(c)));
            assert(self@.inbound =~= before.inbound);
            assert(self@ =~~= spec_subscribe(before, c).0);
        }
        Ok(())
    }

    /// The heartbeat tick; returns whether a frame was queued.
    pub fn poll_heartbeat(&mut self, now: u64) -> (emitted: bool)
        requires
            now <= u64::MAX - HEARTBEAT_PERIOD_SECS,
        ensures
            (final(self)@, emitted) == spec_heartbeat(old(self)@, now),
    {
        if self.state == SessionState::Open && now >= self.next_heartbeat && self.outbound.len()
            < OUTBOUND_CAPACITY {
            let ghost before = self@;
            self.outbound.push(PhoenixMessage::Heartbeat);
            self.next_heartbeat = now + HEARTBEAT_PERIOD_SECS;
            proof {
                assert(self@.outbound =~= before.outbound.push(heartbeat_frame_text()));
                assert(self@.inbound =~= before.inbound);
                assert(self@ =~~= spec_heartbeat(before, now).0);
            }
            true
        } else {
            false
        }
    }

    /// Feeds one inbound text frame through the envelope and schema
    /// decoders into the inbound queue.
    pub fn on_frame_text(&mut self, text: &[u8]) -> (r: IngestOutcome)
        ensures
            (final(self)@, r) == spec_ingest(old(self)@, text@),
    {
        if self.state != SessionState::Open {
            return IngestOutcome::Closed;
        }
        match crate::envelope::decode_message(text) {
            None => IngestOutcome::Dropped,
            Some(e) => {
                if self.inbound.len() < INBOUND_CAPACITY {
                    let ghost before = self@;
                    let ghost ev = e.deep_view();
                    self.inbound.push(e);
                    proof {
                        assert(self@.inbound =~= before.inbound.push(ev));
                        assert(self@.outbound =~= before.outbound);
                        assert(self@ =~~= spec_ingest(before, text@).0);
                    }
                    IngestOutcome::Delivered
                } else {
                    IngestOutcome::Full
                }
            },
        }
    }

    /// Hands the writer the oldest queued frame, already serialised.
    pub fn next_outbound(&mut self) -> (r: Option<String>)
        ensures
            final(self)@ == spec_next_outbound(old(self)@).0,
            match r {
                Some(text) => spec_next_outbound(old(self)@).1 == Some(text@),
                None => spec_next_outbound(old(self)@).1 is None,
            },
    {
        if self.outbound.len() == 0 {
            return None;
        }
        let ghost before = self@;
        let m = self.outbound.remove(0);
        proof {
            assert(self@.outbound =~= before.outbound.subrange(1, before.outbound.len() as int));
            assert(self@.inbound =~= before.inbound);
            assert(self@ =~~= spec_next_outbound(before).0);
        }
        Some(m.frame_text())
    }

    /// Hands the caller the oldest queued event, or nothing.
    pub fn next_event(&mut self) -> (r: Option<StreamEvent>)
        ensures
            final(self)@ == spec_next_event(old(self)@).0,
            match r {
                Some(e) => spec_next_event(old(self)@).1 == Some(e.deep_view()),
                None => spec_next_event(old(self)@).1 is None,
            },
    {
        if self.inbound.len() == 0 {
            return None;
        }
        let ghost before = self@;
        let e = self.inbound.remove(0);
        proof {
            assert(self@.inbound =~= before.inbound.subrange(1, before.inbound.len() as int));
            assert(self@.outbound =~= before.outbound);
            assert(self@ =~~= spec_next_event(before).0);
        }
        Some(e)
    }

    /// Marks the session closed: a transport failure, a protocol violation
    /// (a non-text frame), or teardown.  Terminal.
    pub fn close(&mut self)
        ensures
            final(self)@ == spec_close(old(self)@),
    {
        self.state = SessionState::Closed;
        proof {
            assert(self@ =~~= spec_close(old(self)@));
        }
    }
}

// -------------------------------------------------------------------------
// Laws.
// -------------------------------------------------------------------------

/// A frame that carries no domain event — a push reply, a malformed
/// message, or an unrecognised event type — is dropped without terminating
/// the session, and a well-formed frame fed afterwards is still delivered.
pub proof fn lemma_bad_frame_dropped(s: SessionV, bad: Seq<u8>, good: Seq<u8>)
    requires
        s.open,
        s.inbound.len() < INBOUND_CAPACITY,
        event_of_text(bad) is None,
        event_of_text(good) is Some,
    ensures
        spec_ingest(s, bad) == (s, IngestOutcome::Dropped),
        spec_ingest(spec_ingest(s, bad).0, good) == (
            SessionV { inbound: s.inbound.push(event_of_text(good)->Some_0), ..s },
            IngestOutcome::Delivered,
        ),
{
}

/// Heartbeats are emitted at the configured period as long as the session
/// remains open and the writer keeps up, and cease once it is closed.
pub proof fn lemma_heartbeat_cadence(s: SessionV, now: u64, later: u64)
    requires
        s.open,
        now >= s.next_heartbeat,
        s.outbound.len() < OUTBOUND_CAPACITY,
        now + HEARTBEAT_PERIOD_SECS <= u64::MAX,
    ensures
        spec_heartbeat(s, now).1,
        spec_heartbeat(s, now).0.outbound.last() == heartbeat_frame_text(),
        spec_heartbeat(s, now).0.next_heartbeat == now + HEARTBEAT_PERIOD_SECS,
        // before the period has elapsed again, nothing more is emitted
        later < now + HEARTBEAT_PERIOD_SECS ==> !spec_heartbeat(
            spec_heartbeat(s, now).0,
            later,
        ).1,
        // once closed, nothing is emitted at any time
        !spec_heartbeat(spec_close(spec_heartbeat(s, now).0), later).1,
{
}

/// Closing the connection means `next_event` returns nothing on all
/// subsequent calls: once the session is closed and its queue is drained,
/// no step ever delivers again — events cannot enter while closed, and an
/// empty queue yields nothing and stays empty.
pub proof fn lemma_closed_no_revival(s: SessionV, text: Seq<u8>, now: u64, c: Collection)
    requires
        !s.open,
        s.inbound.len() == 0,
    ensures
        spec_next_event(s) == (s, None::<StreamEventV>),
        spec_ingest(s, text) == (s, IngestOutcome::Closed),
        spec_heartbeat(s, now) == (s, false),
        spec_subscribe(s, c) == (s, Err::<(), SessionError>(SessionError::Closed)),
        spec_close(s) == s,
{
    assert(spec_close(s) =~~= s);
}

} // verus!