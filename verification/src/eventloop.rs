//! Event processing: a handler consumes the events of a `CoreReceiver`,
//! one receive at a time; the driving loop repeats these steps.

use crate::events::{CopyEvent, CoreReceiver, Received};
use vstd::prelude::*;

verus! {

/// Handler for processing copy events.
pub trait EventHandler: Send + Sized {
    /// The handler once it has taken `event`. A handler states it by
    /// overriding this; one that does not leaves nothing known of it.
    closed spec fn spec_on_event(&self, event: CopyEvent) -> Self {
        arbitrary()
    }

    fn on_event(&mut self, event: CopyEvent)
        ensures
            *final(self) == old(self).spec_on_event(event),
    ;

    fn on_idle(&mut self) {
    }

    fn on_error(&mut self, error: &str) {
    }
}

/// A handler that ignores every event.
pub struct LogHandler;

impl EventHandler for LogHandler {
    open spec fn spec_on_event(&self, event: CopyEvent) -> Self {
        *self
    }

    fn on_event(&mut self, event: CopyEvent) {
    }
}

/// What one step of the loop did.
#[derive(Debug, Clone, Copy, PartialEq, Eq, Structural)]
pub enum Step {
    /// An event was handed to the handler.
    Handled,
    /// No event was waiting; the handler was told it is idle.
    Idle,
    /// Every sender is gone.
    Closed,
}

/// What a step does with what the receiver found.
pub open spec fn step_for<T>(r: Received<T>) -> Step {
    match r {
        Received::Item(_) => Step::Handled,
        Received::Empty => Step::Idle,
        Received::Disconnected => Step::Closed,
    }
}

/// Event loop over a `CoreReceiver`.
pub struct EventLoop<H: EventHandler> {
    handler: H,
    receiver: CoreReceiver,
}

impl<H: EventHandler> EventLoop<H> {
    /// The handler that events are handed to.
    pub closed spec fn handler(&self) -> H {
        self.handler
    }

    /// The receiver that events come from.
    pub closed spec fn receiver(&self) -> CoreReceiver {
        self.receiver
    }

    /// A loop handing the events of `receiver` to `handler`.
    pub fn new(handler: H, receiver: CoreReceiver) -> (r: Self)
        ensures
            r.handler() == handler,
            r.receiver() == receiver,
    {
        EventLoop { handler, receiver }
    }

    /// Dispatches what a receive found: an event goes to the handler, an
    /// empty channel makes the handler idle, a closed one does nothing.
    pub fn dispatch(&mut self, found: Received<CopyEvent>) -> (r: Step)
        ensures
            r == step_for(found),
            final(self).receiver() == old(self).receiver(),
            found matches Received::Item(event) ==> final(self).handler() == old(self).handler().spec_on_event(event),
            found is Disconnected ==> final(self).handler() == old(self).handler(),
    {
        match found {
            Received::Item(event) => {
                self.handler.on_event(event);
                Step::Handled
            },
            Received::Empty => {
                self.handler.on_idle();
                Step::Idle
            },
            Received::Disconnected => Step::Closed,
        }
    }

    /// One non-blocking step: takes a waiting event, if any, and dispatches
    /// it. Which of the three outcomes comes depends on the senders, on
    /// other threads; the receiver stays the same.
    pub fn poll_once(&mut self) -> (r: Step)
        ensures
            final(self).receiver() == old(self).receiver(),
            r == Step::Handled ==> exists|event: CopyEvent|
                final(self).handler() == #[trigger] old(self).handler().spec_on_event(event),
            r == Step::Closed ==> final(self).handler() == old(self).handler(),
    {
        let found = self.receiver.try_recv();
        self.dispatch(found)
    }

    /// One blocking step: waits for the next event and hands it to the
    /// handler; `Closed` once every sender is gone.
    pub fn recv_once(&mut self) -> (r: Step)
        ensures
            r != Step::Idle,
            final(self).receiver() == old(self).receiver(),
            r == Step::Handled ==> exists|event: CopyEvent|
                final(self).handler() == #[trigger] old(self).handler().spec_on_event(event),
            r == Step::Closed ==> final(self).handler() == old(self).handler(),
    {
        match self.receiver.recv() {
            Ok(event) => {
                self.handler.on_event(event);
                assert(self.handler() == old(self).handler().spec_on_event(event));
                Step::Handled
            },
            Err(_) => Step::Closed,
        }
    }
}

/// A step reports what the receiver found: an event handed on exactly
/// when one was received, idle exactly when none was waiting, closed
/// exactly when every sender is gone.
pub proof fn lemma_step_reports_what_was_found<T>(found: Received<T>)
    ensures
        step_for(found) == Step::Handled <==> found is Item,
        step_for(found) == Step::Idle <==> found is Empty,
        step_for(found) == Step::Closed <==> found is Disconnected,
{
}

} // verus!
