//! The decisions of one client session: the topics the client subscribed to, what a frame
//! from the client does to them, and which broadcasts are written back to the client.

use vstd::prelude::*;

use crate::messaging::{joined, lemma_join_then_split, split_spec, split_topic_message, MESSAGE_TOPIC_DELIMITER};

verus! {

/// The topics named by a sequence of strings.
pub open spec fn topics_of(v: Seq<String>) -> Set<Seq<char>> {
    Set::new(|t: Seq<char>| exists|j: int| 0 <= j < v.len() && v[j]@ == t)
}

/// The body of `message` that a client subscribed to `topics` is sent: the message's body
/// when its topic is one of them, else nothing.
pub open spec fn delivered(topics: Set<Seq<char>>, message: Seq<char>) -> Option<Seq<char>> {
    match split_spec(message) {
        Some((t, b)) => if topics.contains(t) {
            Some(b)
        } else {
            None
        },
        None => None,
    }
}

/// What a frame from the client amounted to.
#[derive(Debug, Clone, PartialEq, Eq)]
pub enum ClientFrameOutcome {
    /// The client subscribed to the topic.
    Subscribed(String),
    /// The client unsubscribed from the topic.
    Unsubscribed(String),
    /// Any other topic: for the host's client-message callback.
    Forward { topic: String, body: String },
    /// The frame had no delimiter and was discarded.
    MissingDelimiter,
}

/// The exact-match topics a client is subscribed to.
pub struct SubscribedTopics {
    topics: Vec<String>,
}

impl View for SubscribedTopics {
    type V = Set<Seq<char>>;

    closed spec fn view(&self) -> Set<Seq<char>> {
        topics_of(self.topics@)
    }
}

impl SubscribedTopics {
    /// No topic.
    pub fn new() -> (r: SubscribedTopics)
        ensures
            r@ == Set::<Seq<char>>::empty(),
    {
        let r = SubscribedTopics { topics: Vec::new() };
        assert(r@ =~= Set::<Seq<char>>::empty());
        r
    }

    /// Whether `topic` is among the subscribed topics.
    pub fn is_subscribed(&self, topic: &String) -> (r: bool)
        ensures
            r == self@.contains(topic@),
    {
        let mut i: usize = 0;
        while i < self.topics.len()
            invariant
                i <= self.topics@.len(),
                forall|j: int| 0 <= j < i ==> self.topics@[j]@ != topic@,
            decreases self.topics@.len() - i,
        {
            if self.topics[i] == *topic {
                assert(self@.contains(topic@));
                return true;
            }
            i = i + 1;
        }
        false
    }

    /// Adds `topic`.
    pub fn subscribe_topic(&mut self, topic: String)
        ensures
            final(self)@ == old(self)@.insert(topic@),
    {
        if !self.is_subscribed(&topic) {
            let ghost t = topic@;
            self.topics.push(topic);
            assert(self@ =~= old(self)@.insert(t)) by {
                assert(self.topics@[self.topics@.len() - 1]@ == t);
                assert forall|x: Seq<char>| old(self)@.contains(x) implies self@.contains(x) by {
                    let j = choose|j: int| 0 <= j < old(self).topics@.len() && old(self).topics@[j]@ == x;
                    assert(self.topics@[j] == old(self).topics@[j]);
                }
            }
        } else {
            assert(self@ =~= old(self)@.insert(topic@));
        }
    }

    /// Removes `topic`.
    pub fn unsubscribe_topic(&mut self, topic: &String)
        ensures
            final(self)@ == old(self)@.remove(topic@),
    {
        let mut kept: Vec<String> = Vec::new();
        let mut i: usize = 0;
        while i < self.topics.len()
            invariant
                self == old(self),
                i <= self.topics@.len(),
                forall|x: Seq<char>|
                    topics_of(kept@).contains(x) <==> (x != topic@ && exists|j: int|
                        0 <= j < i && self.topics@[j]@ == x),
            decreases self.topics@.len() - i,
        {
            let ghost before = kept@;
            if self.topics[i] != *topic {
                kept.push(self.topics[i].clone());
            }
            proof {
                assert forall|x: Seq<char>|
                    topics_of(kept@).contains(x) <==> (x != topic@ && exists|j: int|
                        0 <= j < i + 1 && self.topics@[j]@ == x) by {
                    if topics_of(kept@).contains(x) {
                        let k = choose|k: int| 0 <= k < kept@.len() && kept@[k]@ == x;
                        if k < before.len() {
                            assert(before[k] == kept@[k]);
                            assert(topics_of(before).contains(x));
                        }
                    }
                    if x != topic@ && exists|j: int| 0 <= j < i + 1 && self.topics@[j]@ == x {
                        let j = choose|j: int| 0 <= j < i + 1 && self.topics@[j]@ == x;
                        if j < i {
                            assert(topics_of(before).contains(x));
                            let k = choose|k: int| 0 <= k < before.len() && before[k]@ == x;
                            assert(kept@[k] == before[k]);
                        } else {
                            assert(kept@[kept@.len() - 1]@ == x);
                        }
                    }
                }
            }
            i = i + 1;
        }
        self.topics = kept;
        assert(self@ =~= old(self)@.remove(topic@));
    }

    /// Acts on a frame from the client: `SUBSCRIBE` and `UNSUBSCRIBE` change the topics,
    /// any other topic is handed on, and a frame without delimiter changes nothing.
    pub fn handle_message_from_client(&mut self, text: &str) -> (r: ClientFrameOutcome)
        ensures
            match split_spec(text@) {
                None => r == ClientFrameOutcome::MissingDelimiter && final(self)@ == old(self)@,
                Some((t, b)) => if t == "SUBSCRIBE"@ {
                    r matches ClientFrameOutcome::Subscribed(s) && s@ == b && final(self)@
                        == old(self)@.insert(b)
                } else if t == "UNSUBSCRIBE"@ {
                    r matches ClientFrameOutcome::Unsubscribed(s) && s@ == b && final(self)@
                        == old(self)@.remove(b)
                } else {
                    r matches ClientFrameOutcome::Forward { topic, body } && topic@ == t && body@
                        == b && final(self)@ == old(self)@
                },
            },
    {
        match split_topic_message(text) {
            None => ClientFrameOutcome::MissingDelimiter,
            Some((topic, body)) => {
                if topic == String::from_str("SUBSCRIBE") {
                    self.subscribe_topic(body.clone());
                    ClientFrameOutcome::Subscribed(body)
                } else if topic == String::from_str("UNSUBSCRIBE") {
                    self.unsubscribe_topic(&body);
                    ClientFrameOutcome::Unsubscribed(body)
                } else {
                    ClientFrameOutcome::Forward { topic, body }
                }
            },
        }
    }

    /// The frame to write for a broadcast `message` (`topic` NUL `body`): its body when
    /// the client is subscribed to its topic, else nothing.
    pub fn handle_message_from_host(&self, message: &str) -> (r: Option<String>)
        ensures
            match delivered(self@, message@) {
                Some(b) => r matches Some(s) && s@ == b,
                None => r is None,
            },
    {
        match split_topic_message(message) {
            None => None,
            Some((topic, body)) => {
                if self.is_subscribed(&topic) {
                    Some(body)
                } else {
                    None
                }
            },
        }
    }
}

/// Where a client connection is in its life.
#[derive(Debug, Clone, Copy, PartialEq, Eq, Structural)]
pub enum ClientState {
    /// Accepted, handshake not yet complete.
    Connecting,
    /// Registered with the hub and served.
    Active,
    /// Over; nothing happens to it any more.
    Closed,
}

/// What can happen to a client connection.
#[derive(Debug, Clone, Copy, PartialEq, Eq, Structural)]
pub enum ClientEvent {
    /// The handshake succeeded and the client was registered.
    Established,
    /// The client's stream ended.
    EndOfStream,
    /// Reading from the client failed.
    ReadError,
    /// Writing to the client failed.
    WriteError,
    /// The host shut the session down.
    Shutdown,
}

/// The state after `event`, and whether the disconnect callback fires: it fires on the
/// step from Active into Closed and on no other.
pub open spec fn client_step(state: ClientState, event: ClientEvent) -> (ClientState, bool) {
    match state {
        ClientState::Connecting => if event == ClientEvent::Established {
            (ClientState::Active, false)
        } else {
            (ClientState::Closed, false)
        },
        ClientState::Active => if event == ClientEvent::Established {
            (ClientState::Active, false)
        } else {
            (ClientState::Closed, true)
        },
        ClientState::Closed => (ClientState::Closed, false),
    }
}

/// The state after a run of events, and how many times the disconnect callback fired.
pub open spec fn client_run(state: ClientState, events: Seq<ClientEvent>) -> (ClientState, nat)
    decreases events.len(),
{
    if events.len() == 0 {
        (state, 0)
    } else {
        let (next, fired) = client_step(state, events[0]);
        let (last, count) = client_run(next, events.drop_first());
        (last, count + if fired { 1nat } else { 0nat })
    }
}

impl ClientState {
    /// Takes `event`; returns whether the disconnect callback is to fire now.
    pub fn on_event(&mut self, event: ClientEvent) -> (fire_disconnect: bool)
        ensures
            (*final(self), fire_disconnect) == client_step(*old(self), event),
    {
        match *self {
            ClientState::Connecting => {
                *self = if event == ClientEvent::Established {
                    ClientState::Active
                } else {
                    ClientState::Closed
                };
                false
            },
            ClientState::Active => {
                if event == ClientEvent::Established {
                    false
                } else {
                    *self = ClientState::Closed;
                    true
                }
            },
            ClientState::Closed => false,
        }
    }
}

/// Whatever happens to a client, its disconnect callback fires at most once: never once
/// it is Closed, and, from Active, exactly once if and only if it ends up Closed.
pub proof fn lemma_disconnect_fires_once(state: ClientState, events: Seq<ClientEvent>)
    ensures
        client_run(state, events).1 <= 1,
        state == ClientState::Closed ==> client_run(state, events) == (ClientState::Closed, 0nat),
        state == ClientState::Active ==> (client_run(state, events).1 == 1 <==> client_run(
            state,
            events,
        ).0 == ClientState::Closed),
    decreases events.len(),
{
    if events.len() > 0 {
        let (next, fired) = client_step(state, events[0]);
        lemma_disconnect_fires_once(next, events.drop_first());
    }
}

/// The clients, among those of `clients` (each with its subscribed topics), to which a
/// broadcast `message` is written.
pub open spec fn receivers(clients: Map<u32, Set<Seq<char>>>, message: Seq<char>) -> Set<u32> {
    clients.dom().filter(|c: u32| delivered(clients[c], message) is Some)
}

/// A broadcast of `body` on a topic is written to exactly the clients subscribed to that
/// topic, each getting `body` as its frame; no other client is written to, so there are
/// as many writes as subscribed clients and no more.
pub proof fn lemma_broadcast_reaches_only_subscribers(
    clients: Map<u32, Set<Seq<char>>>,
    topic: Seq<char>,
    body: Seq<char>,
)
    requires
        !topic.contains(MESSAGE_TOPIC_DELIMITER),
    ensures
        receivers(clients, joined(topic, body)) == clients.dom().filter(
            |c: u32| clients[c].contains(topic),
        ),
        forall|c: u32|
            receivers(clients, joined(topic, body)).contains(c) ==> delivered(
                clients[c],
                joined(topic, body),
            ) == Some(body),
{
    lemma_join_then_split(topic, body);
    assert(receivers(clients, joined(topic, body)) =~= clients.dom().filter(
        |c: u32| clients[c].contains(topic),
    ));
}

} // verus!
