use vstd::prelude::*;

use crate::span::SpanData;

verus! {

/// One field-related criterion: the span must declare a field with the
/// stored name (its value does not matter).
#[derive(Eq, Hash, PartialEq)]
enum FieldCriterion {
    Exists(String),
}

impl FieldCriterion {
    spec fn spec_field(self) -> Seq<char> {
        match self {
            FieldCriterion::Exists(f) => f@,
        }
    }
}

/// A predicate over a span's identity and shape: an optional required
/// exact name, an optional required exact target, and an ordered list
/// of "field must exist" criteria, combined with logical AND.
///
/// Equality and hashing are structural, so two matchers that accept
/// exactly the same spans may still compare unequal when their field
/// criteria were inserted in a different order; that quirk is kept
/// deliberately, since the surrounding registry may rely on it for
/// deduplication.
#[derive(Eq, Hash, PartialEq)]
pub struct SpanMatcher {
    name: Option<String>,
    target: Option<String>,
    fields: Vec<FieldCriterion>,
}

impl SpanMatcher {
    /// The required span name, if one is set.
    pub closed spec fn spec_name(self) -> Option<Seq<char>> {
        match self.name {
            Some(n) => Some(n@),
            None => None,
        }
    }

    /// The required target, if one is set.
    pub closed spec fn spec_target(self) -> Option<Seq<char>> {
        match self.target {
            Some(t) => Some(t@),
            None => None,
        }
    }

    /// The names of the field-exists criteria, in insertion order.
    pub closed spec fn spec_fields(self) -> Seq<Seq<char>> {
        self.fields@.map(|i: int, c: FieldCriterion| c.spec_field())
    }

    /// The name criterion passes: no name is required, or the span's
    /// name is exactly the required one.
    pub open spec fn spec_name_matches(self, span: SpanData) -> bool {
        match self.spec_name() {
            Some(n) => span.name@ == n,
            None => true,
        }
    }

    /// The target criterion passes: no target is required, or the
    /// span's target is exactly the required one.
    pub open spec fn spec_target_matches(self, span: SpanData) -> bool {
        match self.spec_target() {
            Some(t) => span.target@ == t,
            None => true,
        }
    }

    /// Every field-exists criterion passes: each required field name is
    /// declared on the span.
    pub open spec fn spec_fields_match(self, span: SpanData) -> bool {
        forall|i: int|
            0 <= i < self.spec_fields().len() ==> span.spec_has_field(#[trigger] self.spec_fields()[i])
    }

    /// The matcher accepts the span: all configured criteria pass, and
    /// a criterion kind that was never set does not constrain the span.
    /// With no criteria at all, every span is accepted.
    pub open spec fn spec_matches(self, span: SpanData) -> bool {
        &&& self.spec_name_matches(span)
        &&& self.spec_target_matches(span)
        &&& self.spec_fields_match(span)
    }

    /// The two matchers hold the same criteria: same required name,
    /// same required target, and the same field-exists names in the
    /// same order. (They may still be distinct values, since string
    /// storage is not part of the criteria.)
    pub open spec fn spec_same_criteria(self, other: SpanMatcher) -> bool {
        &&& self.spec_name() == other.spec_name()
        &&& self.spec_target() == other.spec_target()
        &&& self.spec_fields() == other.spec_fields()
    }

    /// Sets the required exact span name, overwriting any previous one.
    pub fn set_name(&mut self, name: String)
        ensures
            final(self).spec_name() == Some(name@),
            final(self).spec_target() == old(self).spec_target(),
            final(self).spec_fields() == old(self).spec_fields(),
    {
        self.name = Some(name);
    }

    /// Sets the required exact target, overwriting any previous one.
    pub fn set_target(&mut self, target: String)
        ensures
            final(self).spec_name() == old(self).spec_name(),
            final(self).spec_target() == Some(target@),
            final(self).spec_fields() == old(self).spec_fields(),
    {
        self.target = Some(target);
    }

    /// Appends a "field must exist" criterion. Duplicates are kept and
    /// checked independently; they do not change the matching outcome
    /// (see [`lemma_duplicate_field_criterion`]).
    pub fn add_field_exists(&mut self, field: String)
        ensures
            final(self).spec_name() == old(self).spec_name(),
            final(self).spec_target() == old(self).spec_target(),
            final(self).spec_fields() == old(self).spec_fields().push(field@),
    {
        self.fields.push(FieldCriterion::Exists(field));
        proof {
            assert(self.spec_fields() =~= old(self).spec_fields().push(field@));
        }
    }

    /// Evaluates the span against all configured criteria, combined
    /// with logical AND; short-circuits on the first failing criterion
    /// in the fixed order name, target, then fields in insertion order.
    pub fn matches(&self, span: &SpanData) -> (r: bool)
        ensures
            r == self.spec_matches(*span),
    {
        if let Some(name) = &self.name {
            if !(span.name == *name) {
                return false;
            }
        }
        if let Some(target) = &self.target {
            if !(span.target == *target) {
                return false;
            }
        }
        let mut i: usize = 0;
        while i < self.fields.len()
            invariant
                0 <= i <= self.fields@.len(),
                self.spec_name_matches(*span),
                self.spec_target_matches(*span),
                forall|j: int| 0 <= j < i ==> span.spec_has_field(#[trigger] self.spec_fields()[j]),
            decreases self.fields@.len() - i,
        {
            match &self.fields[i] {
                FieldCriterion::Exists(field) => {
                    if !span.has_field(field) {
                        assert(self.spec_fields()[i as int] == field@);
                        return false;
                    }
                },
            }
            i += 1;
        }
        true
    }
}

impl Clone for FieldCriterion {
    fn clone(&self) -> (r: Self)
        ensures
            r == *self,
    {
        match self {
            FieldCriterion::Exists(f) => FieldCriterion::Exists(f.clone()),
        }
    }
}

impl Clone for SpanMatcher {
    /// A clone carries exactly the criteria of the original, field
    /// criteria order included.
    fn clone(&self) -> (r: Self)
        ensures
            r.spec_same_criteria(*self),
    {
        let name = match &self.name {
            Some(n) => Some(n.clone()),
            None => None,
        };
        let target = match &self.target {
            Some(t) => Some(t.clone()),
            None => None,
        };
        let mut fields: Vec<FieldCriterion> = Vec::new();
        let mut i: usize = 0;
        while i < self.fields.len()
            invariant
                fields@.len() == i <= self.fields@.len(),
                forall|j: int| 0 <= j < i ==> fields@[j] == self.fields@[j],
            decreases self.fields@.len() - i,
        {
            fields.push(self.fields[i].clone());
            i += 1;
        }
        proof {
            assert(fields@ =~= self.fields@);
        }
        SpanMatcher { name, target, fields }
    }
}

impl Default for SpanMatcher {
    /// An empty matcher: no name, no target, no field criteria; it
    /// accepts every span.
    fn default() -> (r: Self)
        ensures
            r.spec_name() is None,
            r.spec_target() is None,
            r.spec_fields().len() == 0,
    {
        SpanMatcher { name: None, target: None, fields: Vec::new() }
    }
}

/// Matching depends on the criteria alone: two matchers holding the
/// same criteria accept exactly the same spans.
pub proof fn lemma_same_criteria_same_matches(a: SpanMatcher, b: SpanMatcher, s: SpanData)
    requires
        a.spec_same_criteria(b),
    ensures
        a.spec_matches(s) == b.spec_matches(s),
{
}

/// A matcher with no criteria set accepts every span.
pub proof fn lemma_empty_matcher_matches_all(m: SpanMatcher, s: SpanData)
    requires
        m.spec_name() is None,
        m.spec_target() is None,
        m.spec_fields().len() == 0,
    ensures
        m.spec_matches(s),
{
}

/// With a required name set, the matcher accepts a span exactly when
/// the span's name equals the required one and every other configured
/// criterion also passes.
pub proof fn lemma_name_criterion(m: SpanMatcher, s: SpanData, n: Seq<char>)
    requires
        m.spec_name() == Some(n),
    ensures
        m.spec_matches(s) <==> (s.name@ == n && m.spec_target_matches(s) && m.spec_fields_match(s)),
{
}

/// With a required target set, the matcher accepts a span exactly when
/// the span's target equals the required one and every other configured
/// criterion also passes.
pub proof fn lemma_target_criterion(m: SpanMatcher, s: SpanData, t: Seq<char>)
    requires
        m.spec_target() == Some(t),
    ensures
        m.spec_matches(s) <==> (s.target@ == t && m.spec_name_matches(s) && m.spec_fields_match(s)),
{
}

/// The matcher accepts a span exactly when every field named by a
/// field-exists criterion is declared on the span — field values play
/// no part — and the name and target criteria also pass.
pub proof fn lemma_field_criteria(m: SpanMatcher, s: SpanData)
    ensures
        m.spec_matches(s) <==> (m.spec_name_matches(s) && m.spec_target_matches(s)
            && (forall|i: int|
                0 <= i < m.spec_fields().len() ==> s.spec_has_field(#[trigger] m.spec_fields()[i]))),
{
}

/// The criterion kinds combine by conjunction, so the matching outcome
/// does not depend on the order in which the kinds are evaluated; the
/// executable `matches` merely short-circuits in the fixed order name,
/// target, fields.
pub proof fn lemma_kind_order_irrelevant(m: SpanMatcher, s: SpanData)
    ensures
        m.spec_matches(s) <==> (m.spec_fields_match(s) && m.spec_target_matches(s)
            && m.spec_name_matches(s)),
{
}

/// Field-exists criteria act as a set during matching: two matchers
/// with the same required name and target whose criteria name the same
/// fields — in whatever order, however often — accept exactly the same
/// spans. (They may still compare unequal, since the stored criteria
/// form a sequence.)
pub proof fn lemma_field_order_irrelevant(m1: SpanMatcher, m2: SpanMatcher, s: SpanData)
    requires
        m1.spec_name() == m2.spec_name(),
        m1.spec_target() == m2.spec_target(),
        forall|f: Seq<char>|
            #[trigger] m1.spec_fields().contains(f) == m2.spec_fields().contains(f),
    ensures
        m1.spec_matches(s) == m2.spec_matches(s),
{
    assert(m1.spec_fields_match(s) ==> m2.spec_fields_match(s)) by {
        if m1.spec_fields_match(s) {
            assert forall|i: int| 0 <= i < m2.spec_fields().len() implies s.spec_has_field(
                #[trigger] m2.spec_fields()[i],
            ) by {
                let f = m2.spec_fields()[i];
                assert(m2.spec_fields().contains(f));
                assert(m1.spec_fields().contains(f));
                let j = choose|j: int| 0 <= j < m1.spec_fields().len() && m1.spec_fields()[j] == f;
                assert(s.spec_has_field(m1.spec_fields()[j]));
            }
        }
    }
    assert(m2.spec_fields_match(s) ==> m1.spec_fields_match(s)) by {
        if m2.spec_fields_match(s) {
            assert forall|i: int| 0 <= i < m1.spec_fields().len() implies s.spec_has_field(
                #[trigger] m1.spec_fields()[i],
            ) by {
                let f = m1.spec_fields()[i];
                assert(m1.spec_fields().contains(f));
                assert(m2.spec_fields().contains(f));
                let j = choose|j: int| 0 <= j < m2.spec_fields().len() && m2.spec_fields()[j] == f;
                assert(s.spec_has_field(m2.spec_fields()[j]));
            }
        }
    }
}

/// A duplicate field-exists criterion is redundant: appending a field
/// name that already occurs among the criteria leaves the matching
/// outcome unchanged for every span (though the stored criterion count
/// does grow).
pub proof fn lemma_duplicate_field_criterion(m1: SpanMatcher, m2: SpanMatcher, s: SpanData, f: Seq<char>)
    requires
        m2.spec_name() == m1.spec_name(),
        m2.spec_target() == m1.spec_target(),
        m1.spec_fields().contains(f),
        m2.spec_fields() == m1.spec_fields().push(f),
    ensures
        m2.spec_matches(s) == m1.spec_matches(s),
{
    let n = m1.spec_fields().len() as int;
    if m1.spec_fields_match(s) {
        let j = choose|j: int| 0 <= j < n && m1.spec_fields()[j] == f;
        assert(s.spec_has_field(m1.spec_fields()[j]));
        assert forall|i: int| 0 <= i < m2.spec_fields().len() implies s.spec_has_field(
            #[trigger] m2.spec_fields()[i],
        ) by {
            if i < n {
                assert(m2.spec_fields()[i] == m1.spec_fields()[i]);
            } else {
                assert(m2.spec_fields()[i] == f);
            }
        }
    } else {
        let i = choose|i: int| 0 <= i < n && !s.spec_has_field(#[trigger] m1.spec_fields()[i]);
        assert(m2.spec_fields()[i] == m1.spec_fields()[i]);
        assert(!m2.spec_fields_match(s));
    }
}

} // verus!
