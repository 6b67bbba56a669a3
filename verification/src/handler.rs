//! Keeping the annotation of a document fresh without computing it more often
//! than needed.
//!
//! Requests arrive as the cursor moves and the buffer is edited. One request
//! is computed at a time; of those that arrive meanwhile only the newest is
//! kept. A timer tells the handler when to look at the computation again.
//! The handler decides; whoever owns it starts the computations, runs the
//! timer and shows what is published.

use vstd::prelude::*;
use crate::blame::LineBlame;
use crate::store::AttributionError;
use crate::template::render;

verus! {

/// How long the timer runs before it fires, in milliseconds.
pub const DEBOUNCE_MILLIS: u64 = 50;

/// Which document a request is for.
#[derive(Clone, Copy, Debug, PartialEq, Eq, Hash, Structural)]
pub struct DocumentId(pub u64);

/// The lines inserted and deleted above the cursor that are not committed
/// yet.
#[derive(Clone, Copy, Debug, PartialEq, Eq, Structural)]
pub struct EditDelta {
    pub inserted: u32,
    pub deleted: u32,
}

/// A request for the annotation of one line.
#[derive(Debug, PartialEq, Eq)]
pub struct PendingRequest {
    pub document: DocumentId,
    /// The cursor's line in the working copy.
    pub target_line: u32,
    pub edit_delta: EditDelta,
    /// The template in which the annotation is written.
    pub format: String,
}

impl Clone for PendingRequest {
    fn clone(&self) -> (copy: PendingRequest)
        ensures
            copy == *self,
    {
        PendingRequest {
            document: self.document,
            target_line: self.target_line,
            edit_delta: self.edit_delta,
            format: self.format.clone(),
        }
    }
}

/// What a finished computation found.
#[derive(Debug, PartialEq, Eq)]
pub struct Completion {
    /// The record of the line, or why there is none.
    pub outcome: Result<LineBlame, AttributionError>,
    /// Whether the line lies in text that is not committed yet, so that the
    /// record found for it is the record of some other line.
    pub uncommitted: bool,
}

/// What is to be shown at a document: an annotation, or none.
#[derive(Clone, Debug, PartialEq, Eq)]
pub struct Publication {
    pub document: DocumentId,
    pub annotation: Option<String>,
}

/// What the handler is doing.
#[derive(Debug, PartialEq, Eq)]
pub enum State {
    /// Nothing is being computed.
    Idle,
    /// `current` is being computed.
    Computing { current: PendingRequest },
    /// `current` is being computed, and `pending` is to be computed after it.
    ComputingWithPending { current: PendingRequest, pending: PendingRequest },
}

/// What happens to the handler.
pub enum Event {
    /// A request arrives.
    Request(PendingRequest),
    /// The timer fires. The computation has finished with the completion
    /// given, or has not finished.
    Timer(Option<Completion>),
}

/// What the owner of the handler is to do after an event.
#[derive(Debug, PartialEq, Eq)]
pub struct Reaction {
    /// Show this.
    pub publish: Option<Publication>,
    /// Start computing this request.
    pub start: Option<PendingRequest>,
    /// Set the timer.
    pub arm_timer: bool,
}

/// The annotation for `request` when its computation ended in `done`: the
/// record written in the request's template; none where the computation
/// failed or the line is not committed yet.
pub open spec fn annotation_text(request: PendingRequest, done: Completion) -> Option<Seq<char>> {
    match done.outcome {
        Ok(blame) => if done.uncommitted {
            None
        } else {
            Some(render(blame@, request.format@))
        },
        Err(_) => None,
    }
}

/// The request in flight in `state`, if there is one.
pub open spec fn in_flight(state: State) -> Option<PendingRequest> {
    match state {
        State::Idle => None,
        State::Computing { current } => Some(current),
        State::ComputingWithPending { current, .. } => Some(current),
    }
}

/// The request that waits in `state` for the one in flight, if there is one.
pub open spec fn waiting(state: State) -> Option<PendingRequest> {
    match state {
        State::ComputingWithPending { pending, .. } => Some(pending),
        _ => None,
    }
}

/// The request whose result `event` publishes in `state`, with that result:
/// the request in flight, when the timer finds its computation finished.
pub open spec fn published(state: State, event: Event) -> Option<(PendingRequest, Completion)> {
    match (in_flight(state), event) {
        (Some(current), Event::Timer(Some(done))) => Some((current, done)),
        _ => None,
    }
}

/// The request whose computation `event` starts in `state`: the request that
/// arrives while nothing is in flight, or the request that has waited for a
/// computation which the timer finds finished.
pub open spec fn started(state: State, event: Event) -> Option<PendingRequest> {
    match event {
        Event::Request(request) => if state is Idle {
            Some(request)
        } else {
            None
        },
        Event::Timer(Some(_)) => waiting(state),
        Event::Timer(None) => None,
    }
}

/// The state that follows `state` on `event`.
pub open spec fn next_state(state: State, event: Event) -> State {
    match event {
        Event::Request(request) => match state {
            State::Idle => State::Computing { current: request },
            State::Computing { current } => State::ComputingWithPending {
                current,
                pending: request,
            },
            State::ComputingWithPending { current, .. } => State::ComputingWithPending {
                current,
                pending: request,
            },
        },
        Event::Timer(Some(_)) => match state {
            State::ComputingWithPending { pending, .. } => State::Computing { current: pending },
            _ => State::Idle,
        },
        Event::Timer(None) => state,
    }
}

/// Whether the timer is to be set after `event` in `state`: whenever a
/// computation is in flight afterwards.
pub open spec fn arms_timer(state: State, event: Event) -> bool {
    in_flight(next_state(state, event)) is Some
}

/// Whether `reaction` is what `event` asks for in `state`.
pub open spec fn reaction_to(state: State, event: Event, reaction: Reaction) -> bool {
    &&& reaction.start == started(state, event)
    &&& reaction.arm_timer == arms_timer(state, event)
    &&& match published(state, event) {
        Some((request, done)) => {
            &&& reaction.publish matches Some(publication)
            &&& publication.document == request.document
            &&& match publication.annotation {
                Some(text) => annotation_text(request, done) == Some(text@),
                None => annotation_text(request, done) is None,
            }
        },
        None => reaction.publish is None,
    }
}

/// Writes the annotation for `request` from what its computation found.
pub fn annotate(request: &PendingRequest, done: &Completion) -> (text: Option<String>)
    ensures
        match text {
            Some(text) => annotation_text(*request, *done) == Some(text@),
            None => annotation_text(*request, *done) is None,
        },
{
    match &done.outcome {
        Ok(blame) => {
            if done.uncommitted {
                None
            } else {
                Some(blame.parse_format(request.format.as_str()))
            }
        },
        Err(_) => None,
    }
}

/// Decides when annotations are computed and what is shown.
pub struct BlameHandler {
    state: State,
}

impl View for BlameHandler {
    type V = State;

    closed spec fn view(&self) -> State {
        self.state
    }
}

impl Default for BlameHandler {
    fn default() -> (handler: BlameHandler)
        ensures
            handler@ == State::Idle,
    {
        BlameHandler::new()
    }
}

impl BlameHandler {
    /// A handler that computes nothing.
    pub fn new() -> (handler: BlameHandler)
        ensures
            handler@ == State::Idle,
    {
        BlameHandler { state: State::Idle }
    }

    /// What the handler is doing.
    pub fn state(&self) -> (state: &State)
        ensures
            *state == self@,
    {
        &self.state
    }

    /// A request arrives.
    ///
    /// While nothing is being computed the request is started. Otherwise it
    /// waits, in the place of any request that waited before it. Either way
    /// the timer is set.
    pub fn handle_event(&mut self, request: PendingRequest) -> (reaction: Reaction)
        ensures
            final(self)@ == next_state(old(self)@, Event::Request(request)),
            reaction_to(old(self)@, Event::Request(request), reaction),
    {
        let mut state = State::Idle;
        core::mem::swap(&mut self.state, &mut state);
        match state {
            State::Idle => {
                self.state = State::Computing { current: request.clone() };
                Reaction { publish: None, start: Some(request), arm_timer: true }
            },
            State::Computing { current } => {
                self.state = State::ComputingWithPending { current, pending: request };
                Reaction { publish: None, start: None, arm_timer: true }
            },
            State::ComputingWithPending { current, pending: _ } => {
                self.state = State::ComputingWithPending { current, pending: request };
                Reaction { publish: None, start: None, arm_timer: true }
            },
        }
    }

    /// The timer fires, and the computation in flight has ended in
    /// `finished`, or has not ended.
    ///
    /// A computation that has not ended is waited for: the timer is set
    /// again. One that has ended is published; the request that waited for
    /// it, if there is one, is started, and the timer is set for it.
    pub fn finish_debounce(&mut self, finished: Option<Completion>) -> (reaction: Reaction)
        ensures
            final(self)@ == next_state(old(self)@, Event::Timer(finished)),
            reaction_to(old(self)@, Event::Timer(finished), reaction),
    {
        let mut state = State::Idle;
        core::mem::swap(&mut self.state, &mut state);
        match (state, finished) {
            (State::Idle, _) => Reaction { publish: None, start: None, arm_timer: false },
            (state, None) => {
                self.state = state;
                Reaction { publish: None, start: None, arm_timer: true }
            },
            (State::Computing { current }, Some(done)) => {
                let publication = Publication {
                    document: current.document,
                    annotation: annotate(&current, &done),
                };
                Reaction { publish: Some(publication), start: None, arm_timer: false }
            },
            (State::ComputingWithPending { current, pending }, Some(done)) => {
                let publication = Publication {
                    document: current.document,
                    annotation: annotate(&current, &done),
                };
                self.state = State::Computing { current: pending.clone() };
                Reaction { publish: Some(publication), start: Some(pending), arm_timer: true }
            },
        }
    }
}

} // verus!
