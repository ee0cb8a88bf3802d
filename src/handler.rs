//! Per-connection handler: a first-in-first-out queue of events that the
//! connection runtime fills through the `notify_*` calls and drains by polling.

use crate::protocol::MsgContent;
use std::collections::VecDeque;
use vstd::prelude::*;

pub use crate::protocol::Success;

verus! {

/// Why an outbound substream could not be negotiated.
#[derive(Debug, Clone, Copy, PartialEq, Eq, Structural)]
pub enum NegotiationError {
    /// The remote did not answer in time.
    Timeout,
    /// The remote does not speak this protocol.
    Unsupported,
    /// The substream failed during the handshake.
    Io,
}

/// An event waiting in a handler's queue.
#[derive(Debug, Clone)]
pub enum HandlerEvent {
    /// A frame was read from an inbound substream: deliver it upward.
    InboundReceived(MsgContent),
    /// The local side wants this message sent: open an outbound substream.
    OutboundRequest(MsgContent),
    /// An outbound attempt failed to negotiate: tell the application.
    SendFailed(NegotiationError),
}

/// What one poll of a queue in state `q` returns, and the queue it leaves.
pub open spec fn poll_step(q: Seq<HandlerEvent>) -> (Option<HandlerEvent>, Seq<HandlerEvent>) {
    if q.len() == 0 {
        (None, q)
    } else {
        (Some(q[0]), q.drop_first())
    }
}

/// The events that polling a queue in state `q` until it answers `None` yields.
pub open spec fn drain(q: Seq<HandlerEvent>) -> Seq<HandlerEvent>
    decreases q.len(),
{
    if q.len() == 0 {
        Seq::empty()
    } else {
        seq![poll_step(q).0->Some_0] + drain(poll_step(q).1)
    }
}

/// The queue after `es` have been enqueued, one notification each, in order.
pub open spec fn enqueue_all(q: Seq<HandlerEvent>, es: Seq<HandlerEvent>) -> Seq<HandlerEvent>
    decreases es.len(),
{
    if es.len() == 0 {
        q
    } else {
        enqueue_all(q, es.drop_last()).push(es.last())
    }
}

/// The event queue of one connection.
pub struct Handler {
    queued_events: VecDeque<HandlerEvent>,
}

impl View for Handler {
    type V = Seq<HandlerEvent>;

    /// The queued events, oldest first.
    closed spec fn view(&self) -> Seq<HandlerEvent> {
        self.queued_events@
    }
}

impl Handler {
    /// A handler for a fresh connection: nothing is queued.
    pub fn new() -> (r: Self)
        ensures
            r@ == Seq::<HandlerEvent>::empty(),
    {
        Handler { queued_events: VecDeque::new() }
    }

    /// Whether no event is waiting.
    pub fn is_idle(&self) -> (r: bool)
        ensures
            r == (self@.len() == 0),
    {
        self.queued_events.len() == 0
    }

    /// Asks for `msg` to be sent on this connection.
    pub fn notify_send(&mut self, msg: MsgContent)
        ensures
            final(self)@ == old(self)@.push(HandlerEvent::OutboundRequest(msg)),
    {
        self.queued_events.push_back(HandlerEvent::OutboundRequest(msg));
    }

    /// Hands over the payload that an inbound substream delivered.
    pub fn notify_inbound_received(&mut self, data: Vec<u8>)
        ensures
            final(self)@ == old(self)@.push(HandlerEvent::InboundReceived(MsgContent { data })),
    {
        self.queued_events.push_back(HandlerEvent::InboundReceived(MsgContent { data }));
    }

    /// Reports that one outbound attempt failed to negotiate. Events already
    /// queued stay as they are; the failure is queued behind them.
    pub fn notify_negotiation_error(&mut self, error: NegotiationError)
        ensures
            final(self)@ == old(self)@.push(HandlerEvent::SendFailed(error)),
    {
        self.queued_events.push_back(HandlerEvent::SendFailed(error));
    }

    /// Takes the oldest queued event, or returns `None` when nothing waits.
    pub fn poll(&mut self) -> (r: Option<HandlerEvent>)
        ensures
            (r, final(self)@) == poll_step(old(self)@),
    {
        let r = self.queued_events.pop_front();
        proof {
            if old(self)@.len() > 0 {
                assert(old(self)@.subrange(1, old(self)@.len() as int) =~= old(self)@.drop_first());
            }
        }
        r
    }

    /// Whether the connection is to be kept open without traffic: always.
    pub fn keep_alive(&self) -> (r: bool)
        ensures
            r,
    {
        true
    }
}

/// Polling yields exactly the queued events, oldest first.
pub proof fn lemma_drain_is_queue(q: Seq<HandlerEvent>)
    ensures
        drain(q) == q,
    decreases q.len(),
{
    if q.len() > 0 {
        lemma_drain_is_queue(q.drop_first());
        assert(seq![q[0]] + q.drop_first() =~= q);
    }
}

/// First in, first out: events enqueued one after another come out of
/// successive polls after everything queued before them, in the order in
/// which they were enqueued.
pub proof fn lemma_poll_order(q: Seq<HandlerEvent>, es: Seq<HandlerEvent>)
    ensures
        drain(enqueue_all(q, es)) == drain(q) + es,
    decreases es.len(),
{
    if es.len() == 0 {
        assert(q + es =~= q);
        lemma_drain_is_queue(q);
    } else {
        lemma_poll_order(q, es.drop_last());
        lemma_drain_is_queue(q);
        lemma_drain_is_queue(enqueue_all(q, es.drop_last()));
        lemma_drain_is_queue(enqueue_all(q, es));
        assert(q + es =~= (q + es.drop_last()).push(es.last()));
    }
}

/// Three events notified to an idle handler come out of three polls in the
/// order of notification, and the handler is idle again after them.
pub proof fn lemma_poll_three(e1: HandlerEvent, e2: HandlerEvent, e3: HandlerEvent)
    ensures
        ({
            let q = Seq::<HandlerEvent>::empty().push(e1).push(e2).push(e3);
            let (r1, q1) = poll_step(q);
            let (r2, q2) = poll_step(q1);
            let (r3, q3) = poll_step(q2);
            &&& r1 == Some(e1)
            &&& r2 == Some(e2)
            &&& r3 == Some(e3)
            &&& q3.len() == 0
            &&& poll_step(q3).0 is None
        }),
{
    let q = Seq::<HandlerEvent>::empty().push(e1).push(e2).push(e3);
    assert(q.drop_first() =~= seq![e2, e3]);
    assert(seq![e2, e3].drop_first() =~= seq![e3]);
    assert(seq![e3].drop_first() =~= Seq::<HandlerEvent>::empty());
}

} // verus!
