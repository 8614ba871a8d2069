use vstd::prelude::*;

verus! {

/// Plain-value view of a live span's metadata, as the host tracing
/// runtime exposes it: the span's name, its target (typically a
/// module/category path), and the names of its declared fields.
///
/// Field presence is a property of the span's metadata alone: a field
/// is declared or not, whatever value it currently carries.
pub struct SpanData {
    pub name: String,
    pub target: String,
    pub fields: Vec<String>,
}

impl SpanData {
    /// Whether the span declares a field with the given name.
    pub open spec fn spec_has_field(self, field: Seq<char>) -> bool {
        exists|i: int| 0 <= i < self.fields@.len() && self.fields@[i]@ == field
    }

    /// Executable check that the span declares a field named `field`.
    pub fn has_field(&self, field: &String) -> (r: bool)
        ensures
            r == self.spec_has_field(field@),
    {
        let mut i: usize = 0;
        while i < self.fields.len()
            invariant
                0 <= i <= self.fields@.len(),
                forall|j: int| 0 <= j < i ==> self.fields@[j]@ != field@,
            decreases self.fields@.len() - i,
        {
            if self.fields[i] == *field {
                return true;
            }
            i += 1;
        }
        false
    }
}

} // verus!
