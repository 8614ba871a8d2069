use vstd::prelude::*;

use crate::matcher::SpanMatcher;
use crate::span::SpanData;

verus! {

/// One of the four span lifecycle transitions the host tracing runtime
/// notifies observers about.
#[derive(Clone, Copy, Debug, Eq, PartialEq, Structural)]
pub enum LifecycleEvent {
    Created,
    Entered,
    Exited,
    Closed,
}

/// A per-expectation record: the matcher that selects the spans it is
/// about, and one counter per lifecycle transition. Each counter
/// saturates at `u64::MAX` instead of wrapping.
pub struct TrackedEntry {
    matcher: SpanMatcher,
    created: u64,
    entered: u64,
    exited: u64,
    closed: u64,
}

/// A counter after one more recorded transition: one higher, except
/// that it stays put at `u64::MAX`.
pub open spec fn saturating_inc(c: u64) -> u64 {
    if c < u64::MAX {
        (c + 1) as u64
    } else {
        c
    }
}

/// How an entry changes when one lifecycle transition is recorded on
/// it: the matcher is untouched, the counter for `event` goes up by
/// one (saturating), and every other counter keeps its value.
pub open spec fn recorded(pre: TrackedEntry, post: TrackedEntry, event: LifecycleEvent) -> bool {
    &&& post.spec_matcher() == pre.spec_matcher()
    &&& forall|e: LifecycleEvent|
        #[trigger] post.spec_count(e) == if e == event {
            saturating_inc(pre.spec_count(e))
        } else {
            pre.spec_count(e)
        }
}

impl TrackedEntry {
    /// The matcher that decides which spans this entry is about.
    pub closed spec fn spec_matcher(self) -> SpanMatcher {
        self.matcher
    }

    /// How many transitions of the given kind were recorded.
    pub closed spec fn spec_count(self, event: LifecycleEvent) -> u64 {
        match event {
            LifecycleEvent::Created => self.created,
            LifecycleEvent::Entered => self.entered,
            LifecycleEvent::Exited => self.exited,
            LifecycleEvent::Closed => self.closed,
        }
    }

    /// The two entries agree observably: their matchers hold the same
    /// criteria and every lifecycle counter has the same value.
    pub open spec fn spec_equiv(self, other: TrackedEntry) -> bool {
        &&& self.spec_matcher().spec_same_criteria(other.spec_matcher())
        &&& forall|e: LifecycleEvent| #[trigger] self.spec_count(e) == other.spec_count(e)
    }

    /// A fresh entry for the given matcher, with no transitions
    /// recorded yet.
    pub fn new(matcher: SpanMatcher) -> (r: Self)
        ensures
            r.spec_matcher() == matcher,
            forall|e: LifecycleEvent| #[trigger] r.spec_count(e) == 0,
    {
        TrackedEntry { matcher, created: 0, entered: 0, exited: 0, closed: 0 }
    }

    /// Whether this entry's matcher accepts the span.
    pub fn matches(&self, span: &SpanData) -> (r: bool)
        ensures
            r == self.spec_matcher().spec_matches(*span),
    {
        self.matcher.matches(span)
    }

    /// The matcher this entry was created with.
    pub fn matcher(&self) -> (r: &SpanMatcher)
        ensures
            *r == self.spec_matcher(),
    {
        &self.matcher
    }

    /// How many transitions of the given kind were recorded so far.
    pub fn count(&self, event: LifecycleEvent) -> (r: u64)
        ensures
            r == self.spec_count(event),
    {
        match event {
            LifecycleEvent::Created => self.created,
            LifecycleEvent::Entered => self.entered,
            LifecycleEvent::Exited => self.exited,
            LifecycleEvent::Closed => self.closed,
        }
    }

    /// Records one transition of the given kind.
    pub fn track(&mut self, event: LifecycleEvent)
        ensures
            recorded(*old(self), *final(self), event),
    {
        match event {
            LifecycleEvent::Created => self.track_created(),
            LifecycleEvent::Entered => self.track_entered(),
            LifecycleEvent::Exited => self.track_exited(),
            LifecycleEvent::Closed => self.track_closed(),
        }
    }

    /// Records that the span this entry tracks was created.
    pub fn track_created(&mut self)
        ensures
            recorded(*old(self), *final(self), LifecycleEvent::Created),
    {
        if self.created < u64::MAX {
            self.created = self.created + 1;
        }
    }

    /// Records that the span this entry tracks was entered.
    pub fn track_entered(&mut self)
        ensures
            recorded(*old(self), *final(self), LifecycleEvent::Entered),
    {
        if self.entered < u64::MAX {
            self.entered = self.entered + 1;
        }
    }

    /// Records that the span this entry tracks was exited.
    pub fn track_exited(&mut self)
        ensures
            recorded(*old(self), *final(self), LifecycleEvent::Exited),
    {
        if self.exited < u64::MAX {
            self.exited = self.exited + 1;
        }
    }

    /// Records that the span this entry tracks was closed.
    pub fn track_closed(&mut self)
        ensures
            recorded(*old(self), *final(self), LifecycleEvent::Closed),
    {
        if self.closed < u64::MAX {
            self.closed = self.closed + 1;
        }
    }
}

impl Clone for TrackedEntry {
    /// A clone holds the same criteria and the same counter values as
    /// the original.
    fn clone(&self) -> (r: Self)
        ensures
            r.spec_equiv(*self),
    {
        TrackedEntry {
            matcher: self.matcher.clone(),
            created: self.created,
            entered: self.entered,
            exited: self.exited,
            closed: self.closed,
        }
    }
}

/// Entry `i` is the one a span resolves to: it is in range, its
/// matcher accepts the span, and no earlier entry's matcher does.
pub open spec fn is_first_match(entries: Seq<TrackedEntry>, span: SpanData, i: int) -> bool {
    &&& 0 <= i < entries.len()
    &&& entries[i].spec_matcher().spec_matches(span)
    &&& forall|j: int| 0 <= j < i ==> !(#[trigger] entries[j]).spec_matcher().spec_matches(span)
}

/// How the whole entry sequence changes when one lifecycle event is
/// processed for a span: the first entry whose matcher accepts the
/// span has the transition recorded on it, and every other entry —
/// all of them, when no matcher accepts the span — is left unchanged.
pub open spec fn applied(
    pre: Seq<TrackedEntry>,
    post: Seq<TrackedEntry>,
    span: SpanData,
    event: LifecycleEvent,
) -> bool {
    &&& post.len() == pre.len()
    &&& forall|i: int| is_first_match(pre, span, i) ==> recorded(pre[i], #[trigger] post[i], event)
    &&& forall|i: int|
        0 <= i < pre.len() && !is_first_match(pre, span, i) ==> #[trigger] post[i] == pre[i]
}

/// The shared tracking state: the tracked entries, in the order their
/// expectations were registered. A span is always charged to the first
/// entry whose matcher accepts it.
pub struct State {
    entries: Vec<TrackedEntry>,
}

impl State {
    /// The tracked entries, in registration order.
    pub closed spec fn spec_entries(self) -> Seq<TrackedEntry> {
        self.entries@
    }

    /// The two states agree observably: same number of entries, and
    /// the entries at each position are observably the same.
    pub open spec fn spec_equiv(self, other: State) -> bool {
        &&& self.spec_entries().len() == other.spec_entries().len()
        &&& forall|i: int|
            0 <= i < self.spec_entries().len()
                ==> (#[trigger] self.spec_entries()[i]).spec_equiv(other.spec_entries()[i])
    }

    /// A state with no tracked entries.
    pub fn new() -> (r: Self)
        ensures
            r.spec_entries().len() == 0,
    {
        State { entries: Vec::new() }
    }

    /// Adds a tracked entry behind the existing ones.
    pub fn add_entry(&mut self, entry: TrackedEntry)
        ensures
            final(self).spec_entries() == old(self).spec_entries().push(entry),
    {
        self.entries.push(entry);
    }

    /// How many entries are tracked.
    pub fn len(&self) -> (r: usize)
        ensures
            r == self.spec_entries().len(),
    {
        self.entries.len()
    }

    /// The entry at the given position.
    pub fn entry(&self, i: usize) -> (r: &TrackedEntry)
        requires
            i < self.spec_entries().len(),
        ensures
            *r == self.spec_entries()[i as int],
    {
        &self.entries[i]
    }

    /// The tracked entry the span resolves to: the first one whose
    /// matcher accepts the span, or nothing — not an error — when no
    /// matcher does.
    pub fn get_entry(&self, span: &SpanData) -> (r: Option<&TrackedEntry>)
        ensures
            match r {
                Some(e) => exists|i: int|
                    is_first_match(self.spec_entries(), *span, i) && *e == self.spec_entries()[i],
                None => forall|i: int|
                    0 <= i < self.spec_entries().len()
                        ==> !(#[trigger] self.spec_entries()[i]).spec_matcher().spec_matches(*span),
            },
    {
        let mut i: usize = 0;
        while i < self.entries.len()
            invariant
                0 <= i <= self.entries@.len(),
                forall|j: int|
                    0 <= j < i ==> !(#[trigger] self.entries@[j]).spec_matcher().spec_matches(*span),
            decreases self.entries@.len() - i,
        {
            if self.entries[i].matches(span) {
                assert(is_first_match(self.spec_entries(), *span, i as int));
                return Some(&self.entries[i]);
            }
            i += 1;
        }
        None
    }

    /// Processes one lifecycle event for a span: records the
    /// transition on the first entry whose matcher accepts the span,
    /// and does nothing at all when no matcher does.
    #[verifier::loop_isolation(false)]
    pub fn apply(&mut self, span: &SpanData, event: LifecycleEvent)
        ensures
            applied(old(self).spec_entries(), final(self).spec_entries(), *span, event),
    {
        let ghost pre = self.entries@;
        let mut i: usize = 0;
        while i < self.entries.len()
            invariant
                0 <= i <= self.entries@.len(),
                self.entries@ == pre,
                forall|j: int|
                    0 <= j < i ==> !(#[trigger] pre[j]).spec_matcher().spec_matches(*span),
            decreases self.entries@.len() - i,
        {
            if self.entries[i].matches(span) {
                proof {
                    assert(is_first_match(pre, *span, i as int));
                }
                let entry = &mut self.entries[i];
                entry.track(event);
                proof {
                    let post = self.entries@;
                    assert(post == pre.update(i as int, post[i as int]));
                    assert forall|k: int| is_first_match(pre, *span, k) implies recorded(
                        pre[k],
                        #[trigger] post[k],
                        event,
                    ) by {
                        if k < i {
                            assert(!pre[k].spec_matcher().spec_matches(*span));
                        } else if k > i {
                            // a first match behind i would need the matcher
                            // at i to reject the span, yet it accepted it
                            assert(!pre[i as int].spec_matcher().spec_matches(*span));
                        }
                        assert(k == i);
                    }
                    assert forall|k: int|
                        0 <= k < pre.len() && !is_first_match(pre, *span, k) implies #[trigger] post[k]
                        == pre[k] by {
                        assert(k != i);
                    }
                }
                return;
            }
            i += 1;
        }
        proof {
            assert forall|k: int| is_first_match(pre, *span, k) implies recorded(
                pre[k],
                #[trigger] self.entries@[k],
                event,
            ) by {
                assert(!pre[k].spec_matcher().spec_matches(*span));
            }
        }
    }
}

impl Clone for State {
    /// A clone tracks observably the same entries as the original.
    fn clone(&self) -> (r: Self)
        ensures
            r.spec_equiv(*self),
    {
        let mut entries: Vec<TrackedEntry> = Vec::new();
        let mut i: usize = 0;
        while i < self.entries.len()
            invariant
                entries@.len() == i <= self.entries@.len(),
                forall|j: int| 0 <= j < i ==> (#[trigger] entries@[j]).spec_equiv(self.entries@[j]),
            decreases self.entries@.len() - i,
        {
            entries.push(self.entries[i].clone());
            i += 1;
        }
        State { entries }
    }
}

/// A lifecycle event for a span that no tracked entry's matcher
/// accepts is a complete no-op: the state afterwards is the state
/// before, entry for entry.
pub proof fn lemma_unmatched_span_is_noop(
    pre: Seq<TrackedEntry>,
    post: Seq<TrackedEntry>,
    span: SpanData,
    event: LifecycleEvent,
)
    requires
        applied(pre, post, span, event),
        forall|i: int|
            0 <= i < pre.len() ==> !(#[trigger] pre[i]).spec_matcher().spec_matches(span),
    ensures
        post == pre,
{
    assert forall|i: int| 0 <= i < pre.len() implies #[trigger] post[i] == pre[i] by {
        assert(!is_first_match(pre, span, i));
    }
    assert(post =~= pre);
}

/// A lifecycle event touches exactly the entry the span resolves to:
/// that entry's counter for the event goes up by one (saturating), its
/// other counters and its matcher are untouched, and every other entry
/// is left exactly as it was.
pub proof fn lemma_matched_entry_counts(
    pre: Seq<TrackedEntry>,
    post: Seq<TrackedEntry>,
    span: SpanData,
    event: LifecycleEvent,
    i: int,
)
    requires
        applied(pre, post, span, event),
        is_first_match(pre, span, i),
    ensures
        post[i].spec_matcher() == pre[i].spec_matcher(),
        post[i].spec_count(event) == saturating_inc(pre[i].spec_count(event)),
        forall|e: LifecycleEvent| e != event ==> #[trigger] post[i].spec_count(e) == pre[i].spec_count(e),
        forall|j: int| 0 <= j < pre.len() && j != i ==> #[trigger] post[j] == pre[j],
{
    assert(recorded(pre[i], post[i], event));
    assert forall|j: int| 0 <= j < pre.len() && j != i implies #[trigger] post[j] == pre[j] by {
        if j < i {
            assert(!pre[j].spec_matcher().spec_matches(span));
            assert(!is_first_match(pre, span, j));
        } else {
            // a first match behind i would need the matcher at i to reject the span
            assert(pre[i].spec_matcher().spec_matches(span));
            assert(!is_first_match(pre, span, j));
        }
    }
}

} // verus!
