//! What holds of the handler over any sequence of events.

use vstd::prelude::*;
use crate::handler::{
    in_flight, next_state, published, started, waiting, Completion, Event, PendingRequest, State,
};

verus! {

/// What a sequence of events has come to. Requests are told apart by their
/// place in the sequence.
pub struct Progress {
    /// What the handler is doing.
    pub state: State,
    /// The place of the request in flight, where there is one.
    pub current: int,
    /// The place of the request that waits, where there is one.
    pub pending: int,
    /// The places of the requests that were started, in the order in which
    /// they were started.
    pub started: Seq<int>,
    /// The places of the requests whose results were published, in the order
    /// in which they were published.
    pub published: Seq<int>,
}

/// What `events` come to when they happen, in order, to a handler that
/// computes nothing.
pub open spec fn progress(events: Seq<Event>) -> Progress
    decreases events.len(),
{
    if events.len() == 0 {
        Progress {
            state: State::Idle,
            current: 0,
            pending: 0,
            started: Seq::empty(),
            published: Seq::empty(),
        }
    } else {
        let before = progress(events.drop_last());
        let event = events.last();
        let at = events.len() - 1;
        let starts = started(before.state, event) is Some;
        let begun = if event is Request { at } else { before.pending };
        Progress {
            state: next_state(before.state, event),
            current: if starts { begun } else { before.current },
            pending: if event is Request && !starts { at } else { before.pending },
            started: if starts { before.started.push(begun) } else { before.started },
            published: if published(before.state, event) is Some {
                before.published.push(before.current)
            } else {
                before.published
            },
        }
    }
}

/// Whether the places that `reached` holds are the places in `events` of the
/// requests that its state holds, and its two lists are in step.
pub open spec fn coherent(events: Seq<Event>, reached: Progress) -> bool {
    &&& forall|k: int|
        0 <= k < reached.started.len() ==> 0 <= #[trigger] reached.started[k] < events.len()
    &&& forall|a: int, b: int|
        0 <= a < b < reached.started.len() ==> reached.started[a] < reached.started[b]
    &&& reached.published.len() <= reached.started.len()
    &&& reached.published == reached.started.take(reached.published.len() as int)
    &&& match in_flight(reached.state) {
        Some(current) => {
            &&& reached.started.len() == reached.published.len() + 1
            &&& reached.started.last() == reached.current
            &&& events[reached.current] == Event::Request(current)
        },
        None => reached.started.len() == reached.published.len(),
    }
    &&& match waiting(reached.state) {
        Some(pending) => {
            &&& reached.current < reached.pending < events.len()
            &&& events[reached.pending] == Event::Request(pending)
        },
        None => true,
    }
}

/// The places that a sequence of events comes to are coherent.
pub proof fn lemma_progress_coherent(events: Seq<Event>)
    ensures
        coherent(events, progress(events)),
    decreases events.len(),
{
    if events.len() > 0 {
        let earlier = events.drop_last();
        let before = progress(earlier);
        let after = progress(events);
        let event = events.last();
        lemma_progress_coherent(earlier);
        assert forall|k: int| 0 <= k < earlier.len() implies earlier[k] == events[k] by {}
        assert(in_flight(before.state) is Some ==> events[before.current] == earlier[before.current]);
        assert(waiting(before.state) is Some ==> events[before.pending] == earlier[before.pending]);
        assert(after.published =~= after.started.take(after.published.len() as int));
    } else {
        let reached = progress(events);
        assert(reached.published =~= reached.started.take(reached.published.len() as int));
    }
}

/// At most one computation is in flight at a time: of the requests that were
/// started, all but the one in flight have been published, and where none is
/// in flight all have.
pub proof fn lemma_one_in_flight(events: Seq<Event>)
    ensures
        in_flight(progress(events).state) is Some ==> progress(events).started.len() == progress(
            events,
        ).published.len() + 1,
        in_flight(progress(events).state) is None ==> progress(events).started.len() == progress(
            events,
        ).published.len(),
{
    lemma_progress_coherent(events);
}

/// Results are published in the order in which their requests arrived: a
/// result that is published later belongs to a request that arrived later.
/// So the result of an older request never replaces that of a newer one.
pub proof fn lemma_published_in_order(events: Seq<Event>, earlier: int, later: int)
    requires
        0 <= earlier < later < progress(events).published.len(),
    ensures
        0 <= progress(events).published[earlier] < progress(events).published[later]
            < events.len(),
{
    lemma_progress_coherent(events);
    let reached = progress(events);
    assert(reached.published[earlier] == reached.started[earlier]);
    assert(reached.published[later] == reached.started[later]);
}

/// The result that an event publishes is the result of the request that
/// arrived at the place which is then added to the places published.
pub proof fn lemma_published_is_arrived(events: Seq<Event>)
    requires
        events.len() > 0,
        published(progress(events.drop_last()).state, events.last()) is Some,
    ensures
        progress(events).published == progress(events.drop_last()).published.push(
            progress(events).published.last(),
        ),
        0 <= progress(events).published.last() < events.len() - 1,
        match published(progress(events.drop_last()).state, events.last()) {
            Some((request, _)) => events[progress(events).published.last()] == Event::Request(
                request,
            ),
            None => false,
        },
{
    let earlier = events.drop_last();
    lemma_progress_coherent(earlier);
    let before = progress(earlier);
    assert(before.started[before.started.len() - 1] == before.current);
    assert(events[before.current] == earlier[before.current]);
}

/// The arrival of `request`.
pub open spec fn arrival(request: PendingRequest) -> Event {
    Event::Request(request)
}

/// The events in which `requests` arrive one after the other, with no timer
/// firing between them.
pub open spec fn burst(requests: Seq<PendingRequest>) -> Seq<Event>
    decreases requests.len(),
{
    if requests.len() == 0 {
        Seq::empty()
    } else {
        burst(requests.drop_last()).push(arrival(requests.last()))
    }
}

/// Of requests that arrive in one burst, the first is started and no other:
/// the last one waits, and those between are dropped. Nothing is published
/// yet.
pub proof fn lemma_burst_starts_one(requests: Seq<PendingRequest>)
    requires
        requests.len() > 0,
    ensures
        burst(requests).len() == requests.len(),
        progress(burst(requests)).started == seq![0int],
        progress(burst(requests)).published == Seq::<int>::empty(),
        progress(burst(requests)).current == 0,
        in_flight(progress(burst(requests)).state) == Some(requests[0]),
        requests.len() == 1 ==> progress(burst(requests)).state == (State::Computing {
            current: requests[0],
        }),
        requests.len() > 1 ==> progress(burst(requests)).state == (State::ComputingWithPending {
            current: requests[0],
            pending: requests.last(),
        }) && progress(burst(requests)).pending == requests.len() - 1,
    decreases requests.len(),
{
    let events = burst(requests);
    let earlier = requests.drop_last();
    assert(events.drop_last() =~= burst(earlier));
    assert(events.last() == arrival(requests.last()));
    if requests.len() == 1 {
        assert(burst(earlier) =~= Seq::<Event>::empty());
        assert(progress(events).started =~= seq![0int]);
    } else {
        lemma_burst_starts_one(earlier);
        assert(earlier[0] == requests[0]);
    }
}

/// When the computations of a burst have finished, the result that was
/// published last is that of the request that arrived last, and the handler
/// computes nothing. Besides the first request of the burst only the last
/// was started.
pub proof fn lemma_burst_publishes_last(
    requests: Seq<PendingRequest>,
    first: Completion,
    second: Completion,
)
    requires
        requests.len() > 0,
    ensures
        ({
            let events = burst(requests).push(Event::Timer(Some(first))).push(
                Event::Timer(Some(second)),
            );
            &&& progress(events).state == State::Idle
            &&& progress(events).published.len() > 0
            &&& progress(events).published.last() == requests.len() - 1
            &&& events[requests.len() - 1] == Event::Request(requests.last())
            &&& requests.len() == 1 ==> progress(events).started == seq![0int]
            &&& requests.len() > 1 ==> progress(events).started == seq![0int, requests.len() - 1]
        }),
{
    let arrived = burst(requests);
    let one = arrived.push(Event::Timer(Some(first)));
    let two = one.push(Event::Timer(Some(second)));
    lemma_burst_starts_one(requests);
    lemma_burst_arrivals(requests, requests.len() - 1);
    assert(one.drop_last() =~= arrived);
    assert(two.drop_last() =~= one);
    let after_one = progress(one);
    let after_two = progress(two);
    if requests.len() == 1 {
        assert(after_one.published =~= seq![0int]);
        assert(after_two.published =~= seq![0int]);
    } else {
        assert(after_one.published =~= seq![0int]);
        assert(after_one.started =~= seq![0int, requests.len() - 1]);
        assert(after_two.published =~= seq![0int, requests.len() - 1]);
    }
}

/// In a burst, the event at each place is the arrival of the request at
/// that place.
pub proof fn lemma_burst_arrivals(requests: Seq<PendingRequest>, at: int)
    requires
        0 <= at < requests.len(),
    ensures
        burst(requests).len() == requests.len(),
        burst(requests)[at] == Event::Request(requests[at]),
    decreases requests.len(),
{
    let earlier = requests.drop_last();
    if requests.len() > 1 {
        lemma_burst_arrivals(earlier, if at < earlier.len() { at } else { 0 });
    } else {
        assert(burst(earlier) =~= Seq::<Event>::empty());
    }
}

/// A timer that finds the computation unfinished changes nothing.
pub proof fn lemma_waiting_changes_nothing(events: Seq<Event>)
    ensures
        progress(events.push(Event::Timer(None))) == progress(events),
{
    let longer = events.push(Event::Timer(None));
    assert(longer.drop_last() =~= events);
}

} // verus!
