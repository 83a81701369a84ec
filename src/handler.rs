//! The per-connection state machine: given what the connection reported, what to do
//! next. The caller performs each action and reports back the outcome.
use vstd::prelude::*;

use crate::framing::{contains_terminator, has_terminator, lemma_terminator_persists};
use crate::response::{lossy_utf8, respond, response};

verus! {

/// The number of bytes asked of the connection by each read.
pub const TRANSFER_WINDOW: usize = 1024;

/// Where a connection stands.
#[derive(Clone, Copy, Debug, PartialEq, Eq, Structural)]
pub enum Phase {
    /// Bytes are being gathered until the end-of-request marker shows up.
    Reading,
    /// The reply has been handed out and is being written.
    Responding,
    /// Nothing more happens on this connection.
    Closed,
}

/// What the connection reported after the last action.
#[derive(Debug)]
pub enum Event {
    /// A read returned these bytes; none at all means the peer closed its side.
    Data(Vec<u8>),
    /// A read failed.
    ReadFailed,
    /// Writing the reply ended, successfully or not.
    WriteFinished,
}

/// What the caller is to do next.
#[derive(Debug)]
pub enum Action {
    /// Read once more from the connection.
    ReadMore,
    /// Write all of these bytes to the connection.
    Send(Vec<u8>),
    /// Drop the connection.
    Close,
}

/// The meaning of an [`Event`].
pub enum EventView {
    Data(Seq<u8>),
    ReadFailed,
    WriteFinished,
}

/// The meaning of an [`Action`].
pub enum ActionView {
    ReadMore,
    Send(Seq<u8>),
    Close,
}

/// The meaning of a [`ConnectionHandler`]: its phase and the bytes gathered so far.
pub struct HandlerView {
    pub phase: Phase,
    pub request: Seq<u8>,
}

impl View for Event {
    type V = EventView;

    open spec fn view(&self) -> EventView {
        match self {
            Event::Data(b) => EventView::Data(b@),
            Event::ReadFailed => EventView::ReadFailed,
            Event::WriteFinished => EventView::WriteFinished,
        }
    }
}

impl View for Action {
    type V = ActionView;

    open spec fn view(&self) -> ActionView {
        match self {
            Action::ReadMore => ActionView::ReadMore,
            Action::Send(b) => ActionView::Send(b@),
            Action::Close => ActionView::Close,
        }
    }
}

/// One connection, from its first read to its close. It owns the request buffer.
pub struct ConnectionHandler {
    phase: Phase,
    request: Vec<u8>,
}

impl View for ConnectionHandler {
    type V = HandlerView;

    closed spec fn view(&self) -> HandlerView {
        HandlerView { phase: self.phase, request: self.request@ }
    }
}

/// A connection just accepted: reading, with nothing gathered.
pub open spec fn initial() -> HandlerView {
    HandlerView { phase: Phase::Reading, request: Seq::empty() }
}

/// A connection that is done; its buffer is discarded.
pub open spec fn closed() -> HandlerView {
    HandlerView { phase: Phase::Closed, request: Seq::empty() }
}

/// The transition on event `e` from state `s`, with the action it calls for.
/// While reading, each non-empty chunk is appended and the whole buffer searched for
/// the marker; once found, the reply to the leniently decoded buffer is sent. An
/// empty read, a failed read, and anything after the reply close the connection.
pub open spec fn next(s: HandlerView, e: EventView) -> (HandlerView, ActionView) {
    match s.phase {
        Phase::Reading => match e {
            EventView::Data(c) => {
                if c.len() == 0 {
                    (closed(), ActionView::Close)
                } else {
                    let req = s.request + c;
                    if has_terminator(req) {
                        (
                            HandlerView { phase: Phase::Responding, request: req },
                            ActionView::Send(response(lossy_utf8(req))),
                        )
                    } else {
                        (HandlerView { phase: Phase::Reading, request: req }, ActionView::ReadMore)
                    }
                }
            },
            _ => (closed(), ActionView::Close),
        },
        _ => (closed(), ActionView::Close),
    }
}

impl ConnectionHandler {
    /// A handler for a connection just accepted.
    pub fn new() -> (r: ConnectionHandler)
        ensures
            r@ == initial(),
    {
        ConnectionHandler { phase: Phase::Reading, request: Vec::new() }
    }

    /// Where the connection stands.
    pub fn phase(&self) -> (r: Phase)
        ensures
            r == self@.phase,
    {
        self.phase
    }

    /// The bytes gathered so far.
    pub fn request(&self) -> (r: &[u8])
        ensures
            r@ == self@.request,
    {
        self.request.as_slice()
    }

    fn close(&mut self)
        ensures
            final(self)@ == closed(),
    {
        self.phase = Phase::Closed;
        self.request = Vec::new();
    }

    /// Takes in what the connection reported and says what to do next.
    pub fn step(&mut self, event: Event) -> (a: Action)
        ensures
            (final(self)@, a@) == next(old(self)@, event@),
    {
        match self.phase {
            Phase::Reading => match event {
                Event::Data(chunk) => {
                    if chunk.len() == 0 {
                        self.close();
                        return Action::Close;
                    }
                    let mut chunk = chunk;
                    self.request.append(&mut chunk);
                    if contains_terminator(self.request.as_slice()) {
                        self.phase = Phase::Responding;
                        Action::Send(respond(self.request.as_slice()))
                    } else {
                        Action::ReadMore
                    }
                },
                _ => {
                    self.close();
                    Action::Close
                },
            },
            _ => {
                self.close();
                Action::Close
            },
        }
    }
}

/// The chunks of `cs` joined in order.
pub open spec fn concat(cs: Seq<Seq<u8>>) -> Seq<u8>
    decreases cs.len(),
{
    if cs.len() == 0 {
        Seq::empty()
    } else {
        concat(cs.drop_last()) + cs.last()
    }
}

/// The state after a fresh connection has reported the reads `cs`, in order.
pub open spec fn run(cs: Seq<Seq<u8>>) -> HandlerView
    decreases cs.len(),
{
    if cs.len() == 0 {
        initial()
    } else {
        next(run(cs.drop_last()), EventView::Data(cs.last())).0
    }
}

/// No read in `cs` came back empty.
pub open spec fn all_non_empty(cs: Seq<Seq<u8>>) -> bool {
    forall|i: int| 0 <= i < cs.len() ==> (#[trigger] cs[i]).len() > 0
}

/// After the reads `cs`, the handler is still reading exactly when their joined bytes
/// hold no marker, and then it holds all of those bytes.
pub proof fn lemma_reads_until_marker(cs: Seq<Seq<u8>>)
    requires
        all_non_empty(cs),
    ensures
        (run(cs).phase == Phase::Reading) == !has_terminator(concat(cs)),
        run(cs).phase == Phase::Reading ==> run(cs).request == concat(cs),
    decreases cs.len(),
{
    if cs.len() > 0 {
        let p = cs.drop_last();
        assert(all_non_empty(p)) by {
            assert forall|i: int| 0 <= i < p.len() implies (#[trigger] p[i]).len() > 0 by {
                assert(p[i] == cs[i]);
            }
        }
        lemma_reads_until_marker(p);
        assert(cs.last() == cs[cs.len() - 1]);
        if has_terminator(concat(p)) {
            lemma_terminator_persists(concat(p), cs.last());
        }
    }
}

/// Detection does not depend on how the stream was cut into reads: two ways of
/// cutting the same bytes leave the handler in the same reading state, or both past it.
pub proof fn lemma_detection_ignores_chunking(cs1: Seq<Seq<u8>>, cs2: Seq<Seq<u8>>)
    requires
        all_non_empty(cs1),
        all_non_empty(cs2),
        concat(cs1) == concat(cs2),
    ensures
        (run(cs1).phase == Phase::Reading) == (run(cs2).phase == Phase::Reading),
        run(cs1).phase == Phase::Reading ==> run(cs1) == run(cs2),
{
    lemma_reads_until_marker(cs1);
    lemma_reads_until_marker(cs2);
}

/// The read that completes the marker makes the handler send the reply to every byte
/// gathered, that read included, and leave the reading phase.
pub proof fn lemma_marker_triggers_reply(cs: Seq<Seq<u8>>, c: Seq<u8>)
    requires
        all_non_empty(cs),
        c.len() > 0,
        !has_terminator(concat(cs)),
        has_terminator(concat(cs) + c),
    ensures
        next(run(cs), EventView::Data(c)) == (
            HandlerView { phase: Phase::Responding, request: concat(cs) + c },
            ActionView::Send(response(lossy_utf8(concat(cs) + c))),
        ),
{
    lemma_reads_until_marker(cs);
}

/// Once reading has ended, the handler never asks for another read and never sends
/// another reply: it closes.
pub proof fn lemma_no_read_after_reading(s: HandlerView, e: EventView)
    requires
        s.phase != Phase::Reading,
    ensures
        next(s, e) == (closed(), ActionView::Close),
{
}

/// A peer that closes before the marker, having sent any bytes or none, gets no reply:
/// the handler closes and discards what it gathered.
pub proof fn lemma_early_close_is_silent(s: HandlerView)
    requires
        s.phase == Phase::Reading,
    ensures
        next(s, EventView::Data(Seq::empty())) == (closed(), ActionView::Close),
{
}

} // verus!
