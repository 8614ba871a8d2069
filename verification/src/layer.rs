use vstd::prelude::*;

use crate::matcher::SpanMatcher;
use crate::span::SpanData;
use crate::state::LifecycleEvent;
use crate::state::State;
use crate::state::TrackedEntry;
use crate::state::applied;

verus! {

/// Holds the shared tracking state and registers the expectations
/// (matcher plus fresh lifecycle counters) that spans are tracked
/// against. Layers are constructed from it and work on the same
/// entries, in registration order.
pub struct AssertionRegistry {
    state: State,
}

impl AssertionRegistry {
    /// The tracking state this registry holds.
    pub closed spec fn spec_state(self) -> State {
        self.state
    }

    /// A registry with nothing tracked yet.
    pub fn new() -> (r: Self)
        ensures
            r.spec_state().spec_entries().len() == 0,
    {
        AssertionRegistry { state: State::new() }
    }

    /// Starts tracking spans that the given matcher accepts: adds a
    /// fresh entry, behind the existing ones, with every lifecycle
    /// counter at zero.
    pub fn register(&mut self, matcher: SpanMatcher)
        ensures
            final(self).spec_state().spec_entries().len() == old(self).spec_state().spec_entries().len()
                + 1,
            forall|j: int|
                0 <= j < old(self).spec_state().spec_entries().len()
                    ==> #[trigger] final(self).spec_state().spec_entries()[j] == old(
                    self,
                ).spec_state().spec_entries()[j],
            final(self).spec_state().spec_entries().last().spec_matcher() == matcher,
            forall|e: LifecycleEvent|
                #[trigger] final(self).spec_state().spec_entries().last().spec_count(e) == 0,
    {
        self.state.add_entry(TrackedEntry::new(matcher));
    }

    /// The tracking state, for layers to copy and for observation.
    pub fn state(&self) -> (r: &State)
        ensures
            *r == self.spec_state(),
    {
        &self.state
    }
}

/// A span-lifecycle observer: on each of the four lifecycle
/// notifications for a span it asks the tracking state for the entry
/// the span resolves to and, if there is one, records the transition
/// on it — and does nothing otherwise.
///
/// The host-runtime embedding resolves the runtime's span handles
/// into [`SpanData`] values before calling in, and shares one layer
/// (or its state) among the runtime's dispatch threads under a lock of
/// its own choosing; the layer itself holds no span-specific data
/// beyond the tracked entries.
pub struct AssertionsLayer {
    state: State,
}

impl AssertionsLayer {
    /// The tracking state this layer mutates.
    pub closed spec fn spec_state(self) -> State {
        self.state
    }

    /// A layer tied to the given registry: it starts from observably
    /// the same tracked entries the registry holds.
    pub fn new(controller: &AssertionRegistry) -> (r: Self)
        ensures
            r.spec_state().spec_equiv(controller.spec_state()),
    {
        AssertionsLayer { state: controller.state().clone() }
    }

    /// Handles the notification that a span was created.
    pub fn on_created(&mut self, span: &SpanData)
        ensures
            applied(
                old(self).spec_state().spec_entries(),
                final(self).spec_state().spec_entries(),
                *span,
                LifecycleEvent::Created,
            ),
    {
        self.state.apply(span, LifecycleEvent::Created);
    }

    /// Handles the notification that a span was entered.
    pub fn on_entered(&mut self, span: &SpanData)
        ensures
            applied(
                old(self).spec_state().spec_entries(),
                final(self).spec_state().spec_entries(),
                *span,
                LifecycleEvent::Entered,
            ),
    {
        self.state.apply(span, LifecycleEvent::Entered);
    }

    /// Handles the notification that a span was exited.
    pub fn on_exited(&mut self, span: &SpanData)
        ensures
            applied(
                old(self).spec_state().spec_entries(),
                final(self).spec_state().spec_entries(),
                *span,
                LifecycleEvent::Exited,
            ),
    {
        self.state.apply(span, LifecycleEvent::Exited);
    }

    /// Handles the notification that a span was closed; no further
    /// event follows a close for the same span.
    pub fn on_closed(&mut self, span: &SpanData)
        ensures
            applied(
                old(self).spec_state().spec_entries(),
                final(self).spec_state().spec_entries(),
                *span,
                LifecycleEvent::Closed,
            ),
    {
        self.state.apply(span, LifecycleEvent::Closed);
    }

    /// The tracking state, for observation.
    pub fn state(&self) -> (r: &State)
        ensures
            *r == self.spec_state(),
    {
        &self.state
    }
}

} // verus!
