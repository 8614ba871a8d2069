//! Span-lifecycle tracking for a structured-tracing runtime.
//!
//! Two cooperating pieces: [`SpanMatcher`], a pure predicate that
//! decides which spans a set of criteria (exact name, exact target,
//! field presence) applies to, and [`AssertionsLayer`], which forwards
//! the four span lifecycle notifications (created, entered, exited,
//! closed) to the tracked entry whose matcher accepts the span — the
//! first registered one — and does nothing when none does. Spans are
//! handled as plain metadata values ([`SpanData`]); the embedding that
//! resolves a host runtime's span handles into those values, and that
//! shares the state among the runtime's dispatch threads, lives
//! outside this crate.

mod layer;
mod matcher;
mod span;
mod state;

pub use layer::AssertionRegistry;
pub use layer::AssertionsLayer;
pub use matcher::SpanMatcher;
pub use matcher::lemma_duplicate_field_criterion;
pub use matcher::lemma_empty_matcher_matches_all;
pub use matcher::lemma_field_criteria;
pub use matcher::lemma_field_order_irrelevant;
pub use matcher::lemma_kind_order_irrelevant;
pub use matcher::lemma_name_criterion;
pub use matcher::lemma_same_criteria_same_matches;
pub use matcher::lemma_target_criterion;
pub use span::SpanData;
pub use state::LifecycleEvent;
pub use state::State;
pub use state::TrackedEntry;
pub use state::applied;
pub use state::is_first_match;
pub use state::lemma_matched_entry_counts;
pub use state::lemma_unmatched_span_is_noop;
pub use state::recorded;
pub use state::saturating_inc;
