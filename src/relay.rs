use vstd::prelude::*;
use crate::json::{json_quote, quote_json};

verus! {

/// The category of a verification message, and of the relay that forwards it.
#[derive(Clone, Copy, Debug, PartialEq, Eq, Structural)]
pub enum Topic {
    HeaderVerified,
    ConfidenceAchieved,
    DataVerified,
}

/// The name under which a topic is encoded.
pub open spec fn topic_name(topic: Topic) -> Seq<char> {
    match topic {
        Topic::HeaderVerified => "header-verified"@,
        Topic::ConfidenceAchieved => "confidence-achieved"@,
        Topic::DataVerified => "data-verified"@,
    }
}

/// The JSON text of a topic, as handed to the callback.
pub open spec fn topic_text(topic: Topic) -> Seq<char> {
    json_quote(topic_name(topic))
}

impl Topic {
    /// The name under which this topic is encoded.
    pub fn name(&self) -> (r: &'static str)
        ensures
            r@ == topic_name(*self),
    {
        match self {
            Topic::HeaderVerified => "header-verified",
            Topic::ConfidenceAchieved => "confidence-achieved",
            Topic::DataVerified => "data-verified",
        }
    }

    /// The JSON text of this topic.
    pub fn to_json(&self) -> (r: String)
        ensures
            r@ == topic_text(*self),
    {
        quote_json(self.name())
    }
}

/// What the relay observed on its source channel.
#[derive(Debug, PartialEq, Eq)]
pub enum RelayEvent {
    /// The producer is gone.
    Closed,
    /// The relay fell behind by this many messages and cannot recover them.
    Lagged(u64),
    /// A message arrived: its JSON payload, or why it could not be converted
    /// or encoded.
    Received(Result<String, String>),
}

/// What the relay does with one observation.
#[derive(Debug, PartialEq, Eq)]
pub enum RelayAction {
    /// Stop for good: no callback for this topic is invoked again.
    Stop,
    /// Drop the message and keep listening.
    Skip,
    /// Invoke the callback once with the topic's text and the payload.
    Notify(String, String),
}

pub open spec fn event_stops(event: RelayEvent) -> bool {
    event is Closed || event is Lagged
}

pub open spec fn event_fails(event: RelayEvent) -> bool {
    event is Received && event->Received_0 is Err
}

/// The callback invocations, topic text and payload text each, that a relay
/// makes while it observes `events` in order.
pub open spec fn relay_trace(topic: Topic, events: Seq<RelayEvent>) -> Seq<(Seq<char>, Seq<char>)>
    decreases events.len(),
{
    if events.len() == 0 {
        Seq::empty()
    } else {
        match events[0] {
            RelayEvent::Received(Ok(payload)) => seq![(topic_text(topic), payload@)]
                + relay_trace(topic, events.drop_first()),
            RelayEvent::Received(Err(_)) => relay_trace(topic, events.drop_first()),
            _ => Seq::empty(),
        }
    }
}

/// How many of `events` are messages that could not be converted or encoded.
pub open spec fn failure_count(events: Seq<RelayEvent>) -> nat
    decreases events.len(),
{
    if events.len() == 0 {
        0
    } else {
        (if event_fails(events[0]) { 1nat } else { 0nat }) + failure_count(events.drop_first())
    }
}

/// One step of the relay of `topic`: a closed or lagged channel stops it, a
/// message that could not be converted is dropped, and every other message
/// is handed to the callback together with the topic's text.
pub fn call_callbacks(topic: Topic, event: RelayEvent) -> (r: RelayAction)
    ensures
        event_stops(event) <==> r is Stop,
        event_fails(event) <==> r is Skip,
        event is Received && event->Received_0 is Ok ==> r is Notify && r->Notify_0@ == topic_text(topic)
            && r->Notify_1@ == event->Received_0->Ok_0@,
        relay_trace(topic, seq![event]) == (if r is Notify {
            seq![(r->Notify_0@, r->Notify_1@)]
        } else {
            Seq::empty()
        }),
{
    proof {
        assert(seq![event].drop_first() =~= Seq::<RelayEvent>::empty());
        assert(relay_trace(topic, Seq::<RelayEvent>::empty()) == Seq::<(Seq<char>, Seq<char>)>::empty());
    }
    match event {
        RelayEvent::Closed => RelayAction::Stop,
        RelayEvent::Lagged(_) => RelayAction::Stop,
        RelayEvent::Received(Err(_)) => RelayAction::Skip,
        RelayEvent::Received(Ok(payload)) => {
            RelayAction::Notify(topic.to_json(), payload)
        },
    }
}

/// A relay that meets no closing keeps listening: what it forwards of a
/// longer run is what it forwarded so far followed by what it forwards of
/// the rest, so the order of the messages is kept.
pub proof fn lemma_relay_keeps_listening(topic: Topic, events: Seq<RelayEvent>, more: Seq<RelayEvent>)
    requires
        forall|i: int| 0 <= i < events.len() ==> !event_stops(#[trigger] events[i]),
    ensures
        relay_trace(topic, events + more) == relay_trace(topic, events) + relay_trace(topic, more),
    decreases events.len(),
{
    if events.len() == 0 {
        assert(events + more =~= more);
        assert(relay_trace(topic, events) + relay_trace(topic, more) =~= relay_trace(topic, more));
    } else {
        assert((events + more).drop_first() =~= events.drop_first() + more);
        assert(!event_stops(events[0]));
        lemma_relay_keeps_listening(topic, events.drop_first(), more);
        assert((events + more)[0] == events[0]);
        match events[0] {
            RelayEvent::Received(Ok(payload)) => {
                assert(relay_trace(topic, events + more) =~= relay_trace(topic, events) + relay_trace(topic, more));
            },
            _ => {},
        }
    }
}

/// Of messages that arrive on an open channel, every one is forwarded but
/// those that could not be converted: with one such among N, the callback
/// is invoked N - 1 times.
pub proof fn lemma_relay_drops_only_failures(topic: Topic, events: Seq<RelayEvent>)
    requires
        forall|i: int| 0 <= i < events.len() ==> !event_stops(#[trigger] events[i]),
    ensures
        relay_trace(topic, events).len() == events.len() - failure_count(events),
        failure_count(events) == 1 ==> relay_trace(topic, events).len() == events.len() - 1,
    decreases events.len(),
{
    if events.len() > 0 {
        assert(!event_stops(events[0]));
        assert forall|i: int| 0 <= i < events.drop_first().len() implies !event_stops(
            #[trigger] events.drop_first()[i],
        ) by {
            assert(events.drop_first()[i] == events[i + 1]);
        }
        lemma_relay_drops_only_failures(topic, events.drop_first());
    }
}

/// Once the channel is closed, or lagged beyond recovery, the relay invokes
/// the callback no more: whatever follows is never forwarded.
pub proof fn lemma_relay_stops_at_close(topic: Topic, events: Seq<RelayEvent>, i: int)
    requires
        0 <= i < events.len(),
        event_stops(events[i]),
    ensures
        relay_trace(topic, events) == relay_trace(topic, events.take(i)),
    decreases i,
{
    if i == 0 {
        assert(relay_trace(topic, events.take(0)) =~= Seq::empty());
    } else {
        assert(events.take(i).drop_first() =~= events.drop_first().take(i - 1));
        assert(events.take(i)[0] == events[0]);
        lemma_relay_stops_at_close(topic, events.drop_first(), i - 1);
    }
}

} // verus!
