//! The event bridge: a FIFO queue of user-interaction events and the
//! consumer that drains it.
//!
//! Interaction callbacks may fire on a thread the update loop does not
//! control, so they never touch shared state directly: they only enqueue an
//! immutable message, and all state mutation happens inside the single
//! consumer loop.  This module verifies the queue discipline itself — FIFO
//! order, no loss, no duplication — and the consumer rule that `Quit` is
//! terminal.  The host program supplies the actual cross-thread transport
//! and hands received messages to the same logic.

use vstd::prelude::*;

use crate::text::chars_eq;
use crate::text::to_chars;

verus! {

/// A user-interaction event.
#[derive(Clone, Debug, PartialEq, Eq)]
pub enum AppMessage {
    /// Toggle the controlled service.
    Toggle,
    /// Rebuild the displayed state.
    Refresh,
    /// Stop the consumer loop.
    Quit,
    /// An individual row was selected; the payload is its identifier.
    SelectItem(String),
}

/// What the consumer does in reaction to one message.
#[derive(Clone, Debug, PartialEq, Eq)]
pub enum Reaction {
    /// Rebuild the display model from fresh service state.
    RebuildOnly,
    /// Toggle the service, then rebuild the display model.
    ToggleAndRebuild,
    /// Hand the selected identifier to the selection callback.
    SelectPeer(String),
    /// Stop scheduling further iterations and release owned resources.
    Stop,
}

/// Maps a consumed message to the consumer's reaction.  `Quit` is the only
/// message that stops the loop.
pub fn dispatch(m: AppMessage) -> (r: Reaction)
    ensures
        m is Refresh ==> r == Reaction::RebuildOnly,
        m is Toggle ==> r == Reaction::ToggleAndRebuild,
        m is Quit ==> r == Reaction::Stop,
        m matches AppMessage::SelectItem(id) ==> (r matches Reaction::SelectPeer(rid) && rid
            == id),
        r is Stop <==> m is Quit,
{
    match m {
        AppMessage::Refresh => Reaction::RebuildOnly,
        AppMessage::Toggle => Reaction::ToggleAndRebuild,
        AppMessage::Quit => Reaction::Stop,
        AppMessage::SelectItem(id) => Reaction::SelectPeer(id),
    }
}

/// Maps a selected identifier to the interaction message it stands for:
/// the three fixed control identifiers name their actions, and every other
/// identifier is an item selection carrying the identifier itself.
pub fn message_for_id(id: String) -> (m: AppMessage)
    ensures
        m == (if id@ == "toggle"@ {
            AppMessage::Toggle
        } else if id@ == "refresh"@ {
            AppMessage::Refresh
        } else if id@ == "quit"@ {
            AppMessage::Quit
        } else {
            AppMessage::SelectItem(id)
        }),
{
    let idc = to_chars(id.as_str());
    if chars_eq(&idc, &to_chars("toggle")) {
        AppMessage::Toggle
    } else if chars_eq(&idc, &to_chars("refresh")) {
        AppMessage::Refresh
    } else if chars_eq(&idc, &to_chars("quit")) {
        AppMessage::Quit
    } else {
        AppMessage::SelectItem(id)
    }
}

/// An ordered queue of pending events.  Producers append at the back; the
/// single consumer removes from the front, so delivery order is send order
/// and no message is dropped or duplicated.
pub struct EventBridge {
    queue: Vec<AppMessage>,
}

impl View for EventBridge {
    type V = Seq<AppMessage>;

    closed spec fn view(&self) -> Seq<AppMessage> {
        self.queue@
    }
}

impl EventBridge {
    /// An empty bridge.
    pub fn new() -> (b: EventBridge)
        ensures
            b@ == Seq::<AppMessage>::empty(),
    {
        EventBridge { queue: Vec::new() }
    }

    /// Appends a message at the back of the queue.
    pub fn send(&mut self, m: AppMessage)
        ensures
            final(self)@ == old(self)@.push(m),
    {
        self.queue.push(m);
    }

    /// Removes and returns the oldest pending message, or `None` when the
    /// queue is empty.
    pub fn try_recv(&mut self) -> (r: Option<AppMessage>)
        ensures
            old(self)@.len() == 0 ==> r is None && final(self)@ == old(self)@,
            old(self)@.len() > 0 ==> (r matches Some(m) && m == old(self)@[0] && final(self)@
                == old(self)@.drop_first()),
    {
        if self.queue.len() == 0 {
            None
        } else {
            let m = self.queue.remove(0);
            proof {
                assert(self.queue@ =~= old(self)@.drop_first());
            }
            Some(m)
        }
    }

    /// The number of pending messages.
    pub fn len(&self) -> (n: usize)
        ensures
            n == self@.len(),
    {
        self.queue.len()
    }

    /// There is no pending message.
    pub fn is_empty(&self) -> (b: bool)
        ensures
            b == (self@.len() == 0),
    {
        self.queue.len() == 0
    }
}

/// The prefix of a queue that the consumer processes: everything up to and
/// including the first `Quit`, or the whole queue when no `Quit` is
/// pending.
pub open spec fn consumed_prefix(q: Seq<AppMessage>) -> Seq<AppMessage>
    decreases q.len(),
{
    if q.len() == 0 {
        Seq::empty()
    } else if q[0] is Quit {
        seq![q[0]]
    } else {
        seq![q[0]] + consumed_prefix(q.drop_first())
    }
}

/// The state of the single consumer loop.
pub struct Consumer {
    /// The consumer has processed a `Quit` and takes nothing further.
    pub stopped: bool,
}

impl Consumer {
    /// A running consumer.
    pub fn new() -> (c: Consumer)
        ensures
            !c.stopped,
    {
        Consumer { stopped: false }
    }

    /// One scheduling turn: takes the oldest pending message, unless the
    /// consumer has already stopped.  Consuming `Quit` stops the consumer,
    /// and a stopped consumer never touches the queue again.
    pub fn poll(&mut self, bridge: &mut EventBridge) -> (r: Option<AppMessage>)
        ensures
            old(self).stopped ==> r is None && final(self).stopped && final(bridge)@ == old(
                bridge,
            )@,
            !old(self).stopped && old(bridge)@.len() == 0 ==> r is None && !final(self).stopped
                && final(bridge)@ == old(bridge)@,
            !old(self).stopped && old(bridge)@.len() > 0 ==> (r matches Some(m) && m == old(
                bridge,
            )@[0] && final(bridge)@ == old(bridge)@.drop_first() && final(self).stopped == (old(
                bridge,
            )@[0] is Quit)),
    {
        if self.stopped {
            return None;
        }
        match bridge.try_recv() {
            None => None,
            Some(m) => {
                let is_quit = match &m {
                    AppMessage::Quit => true,
                    _ => false,
                };
                if is_quit {
                    self.stopped = true;
                }
                Some(m)
            },
        }
    }

    /// Drains the pending messages in send order until the queue is empty
    /// or a `Quit` was consumed, and returns the processed messages: the
    /// consumed prefix of the queue.  No message after the first `Quit` is
    /// processed.
    pub fn run(&mut self, bridge: &mut EventBridge) -> (log: Vec<AppMessage>)
        requires
            !old(self).stopped,
        ensures
            log@ == consumed_prefix(old(bridge)@),
            final(bridge)@ == old(bridge)@.skip(log@.len() as int),
            final(self).stopped <==> (log@.len() > 0 && log@.last() is Quit),
    {
        let ghost q0 = bridge@;
        let mut log: Vec<AppMessage> = Vec::new();
        proof {
            assert(q0.skip(0) =~= q0);
            assert(log@ + consumed_prefix(bridge@) =~= consumed_prefix(q0));
        }
        loop
            invariant
                log@.len() <= q0.len(),
                bridge@ == q0.skip(log@.len() as int),
                !self.stopped ==> consumed_prefix(q0) == log@ + consumed_prefix(bridge@),
                !self.stopped ==> (forall|k: int| 0 <= k < log@.len() ==> !(log@[k] is Quit)),
                self.stopped ==> consumed_prefix(q0) == log@,
                self.stopped ==> log@.len() > 0 && log@.last() is Quit,
            ensures
                log@ == consumed_prefix(q0),
                bridge@ == q0.skip(log@.len() as int),
                self.stopped <==> (log@.len() > 0 && log@.last() is Quit),
            decreases q0.len() - log@.len(),
        {
            let ghost qpre = bridge@;
            let ghost logpre = log@;
            let r = self.poll(bridge);
            match r {
                None => {
                    proof {
                        if !self.stopped {
                            assert(consumed_prefix(qpre) =~= Seq::<AppMessage>::empty());
                            assert(log@ + consumed_prefix(qpre) =~= log@);
                        }
                    }
                    break ;
                },
                Some(m) => {
                    log.push(m);
                    proof {
                        assert(qpre[0] == m);
                        assert(q0.skip(logpre.len() as int).drop_first() =~= q0.skip(
                            logpre.len() as int + 1,
                        ));
                        if m is Quit {
                            assert(consumed_prefix(qpre) =~= seq![m]);
                            assert(consumed_prefix(q0) =~= logpre + seq![m]);
                            assert(consumed_prefix(q0) =~= log@);
                        } else {
                            assert(consumed_prefix(qpre) =~= seq![m] + consumed_prefix(
                                bridge@,
                            ));
                            assert(logpre + consumed_prefix(qpre) =~= log@ + consumed_prefix(
                                bridge@,
                            ));
                        }
                    }
                },
            }
        }
        log
    }
}

/// What the consumer processes is an initial segment of the queue in send
/// order; a `Quit` can stand only at its end; when some `Quit` is pending
/// the processing ends with one, and when none is pending every message is
/// processed.
pub proof fn lemma_nothing_after_quit(q: Seq<AppMessage>)
    ensures
        consumed_prefix(q).len() <= q.len(),
        consumed_prefix(q) == q.take(consumed_prefix(q).len() as int),
        forall|i: int|
            0 <= i < consumed_prefix(q).len() - 1 ==> !((#[trigger] consumed_prefix(q)[i])
                is Quit),
        (exists|i: int| 0 <= i < q.len() && (#[trigger] q[i]) is Quit) ==> consumed_prefix(
            q,
        ).len() > 0 && consumed_prefix(q).last() is Quit,
        (forall|i: int| 0 <= i < q.len() ==> !((#[trigger] q[i]) is Quit)) ==> consumed_prefix(q)
            == q,
    decreases q.len(),
{
    if q.len() == 0 {
    } else if q[0] is Quit {
        assert(consumed_prefix(q) =~= q.take(1));
    } else {
        let t = q.drop_first();
        lemma_nothing_after_quit(t);
        let c = consumed_prefix(q);
        let ct = consumed_prefix(t);
        assert(c == seq![q[0]] + ct);
        assert(ct == t.take(ct.len() as int));
        assert(c =~= q.take(c.len() as int));
        assert forall|i: int| 0 <= i < c.len() - 1 implies !((#[trigger] c[i]) is Quit) by {
            if i > 0 {
                assert(c[i] == ct[i - 1]);
            }
        }
        if exists|i: int| 0 <= i < q.len() && (#[trigger] q[i]) is Quit {
            let i = choose|i: int| 0 <= i < q.len() && (#[trigger] q[i]) is Quit;
            assert(t[i - 1] is Quit);
            assert(c.last() == ct.last());
        }
        if forall|i: int| 0 <= i < q.len() ==> !((#[trigger] q[i]) is Quit) {
            assert(forall|i: int| 0 <= i < t.len() ==> !((#[trigger] t[i]) is Quit));
            assert(c =~= q);
        }
    }
}

} // verus!
