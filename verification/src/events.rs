//! The event vocabulary and the aggregation state machine: three ordered
//! sources — timeouts, network events, local API calls — merged into one
//! stream with a fixed priority, ending only once all three sources have
//! ended. The asynchronous shell around the reactor polls its sources and
//! hands each cycle's outcomes to `EventsAggregator::poll`, which decides.

use vstd::prelude::*;

verus! {

use crate::messages::RawMessage;
use crate::consensus::PeerAddr;

/// An opaque timeout payload supplied by the node core.
#[derive(Clone, Copy, PartialEq, Eq, Structural, Debug)]
pub struct NodeTimeout(pub u64);

/// An opaque local-API payload supplied by the node core.
#[derive(Clone, Copy, PartialEq, Eq, Structural, Debug)]
pub struct ExternalMessage(pub u64);

/// What the transport layer reports to the reactor.
pub enum NetworkEvent {
    MessageReceived(PeerAddr, RawMessage),
    PeerConnected(PeerAddr),
    PeerDisconnected(PeerAddr),
}

/// What the reactor asks of the transport layer.
pub enum NetworkRequest {
    SendMessage(PeerAddr, RawMessage),
    DisconnectWithPeer(PeerAddr),
}

/// One event for the reactor, tagged with its source.
pub enum Event {
    Network(NetworkEvent),
    Timeout(NodeTimeout),
    Api(ExternalMessage),
}

/// The consumer of aggregated events: the consensus handler outside this
/// library implements it.
pub trait EventHandler {
    fn handle_event(&mut self, event: Event);
}

/// One source's answer to a poll: an item, the end of the source, or
/// nothing yet.
pub enum SourcePoll<T> {
    Ready(T),
    Closed,
    Pending,
}

/// One cycle's outcome: an event to hand on, the end of the whole stream,
/// or nothing yet.
pub enum PollOutcome {
    Next(Event),
    Finished,
    Pending,
}

/// The aggregation state: which of the three sources have ended. Sources are
/// fused: once one reports `Closed` it stays closed.
pub struct EventsAggregator {
    pub timeout_done: bool,
    pub network_done: bool,
    pub api_done: bool,
}

impl EventsAggregator {
    /// All three sources have ended.
    pub open spec fn all_done(&self) -> bool {
        self.timeout_done && self.network_done && self.api_done
    }

    /// A fresh aggregator with every source still live.
    pub fn new() -> (r: EventsAggregator)
        ensures
            !r.timeout_done,
            !r.network_done,
            !r.api_done,
    {
        EventsAggregator { timeout_done: false, network_done: false, api_done: false }
    }

    /// One poll cycle. Priority is fixed: a ready timeout wins over a ready
    /// network event, which wins over a ready API event; sources past the
    /// winner wait for the next cycle untouched. With nothing ready, the
    /// stream finishes exactly when every source has ended.
    pub fn poll(
        &mut self,
        timeout: SourcePoll<NodeTimeout>,
        network: SourcePoll<NetworkEvent>,
        api: SourcePoll<ExternalMessage>,
    ) -> (r: PollOutcome)
        ensures
            // Timeout beats everything; nothing else is recorded this cycle.
            timeout matches SourcePoll::Ready(t) ==> (r == PollOutcome::Next(Event::Timeout(t))
                && *final(self) == *old(self)),
            // Network beats API.
            timeout !is Ready ==> (network matches SourcePoll::Ready(e) ==> (r
                == PollOutcome::Next(Event::Network(e)) && final(self).timeout_done == (old(
                self,
            ).timeout_done || timeout is Closed) && final(self).network_done == old(
                self,
            ).network_done && final(self).api_done == old(self).api_done)),
            timeout !is Ready && network !is Ready ==> (api matches SourcePoll::Ready(m) ==> (r
                == PollOutcome::Next(Event::Api(m)) && final(self).timeout_done == (old(
                self,
            ).timeout_done || timeout is Closed) && final(self).network_done == (old(
                self,
            ).network_done || network is Closed) && final(self).api_done == old(self).api_done)),
            // With nothing ready, every source's end is recorded, and the
            // stream ends exactly when all three have ended.
            timeout !is Ready && network !is Ready && api !is Ready ==> (final(self).timeout_done
                == (old(self).timeout_done || timeout is Closed) && final(self).network_done == (
            old(self).network_done || network is Closed) && final(self).api_done == (old(
                self,
            ).api_done || api is Closed) && r == (if final(self).all_done() {
                PollOutcome::Finished
            } else {
                PollOutcome::Pending
            })),
            // A source once ended never comes back.
            old(self).timeout_done ==> final(self).timeout_done,
            old(self).network_done ==> final(self).network_done,
            old(self).api_done ==> final(self).api_done,
    {
        match timeout {
            SourcePoll::Ready(t) => {
                return PollOutcome::Next(Event::Timeout(t));
            },
            SourcePoll::Closed => {
                self.timeout_done = true;
            },
            SourcePoll::Pending => {},
        }
        match network {
            SourcePoll::Ready(e) => {
                return PollOutcome::Next(Event::Network(e));
            },
            SourcePoll::Closed => {
                self.network_done = true;
            },
            SourcePoll::Pending => {},
        }
        match api {
            SourcePoll::Ready(m) => {
                return PollOutcome::Next(Event::Api(m));
            },
            SourcePoll::Closed => {
                self.api_done = true;
            },
            SourcePoll::Pending => {},
        }
        if self.timeout_done && self.network_done && self.api_done {
            PollOutcome::Finished
        } else {
            PollOutcome::Pending
        }
    }
}

} // verus!
