//! A validation or authorization failure attributed to one input field.

use vstd::prelude::*;

verus! {

/// A (field name, message) pair reporting a user-attributable failure on a
/// specific input field.
#[derive(Debug, Clone)]
pub struct FieldError {
    pub field: String,
    pub message: String,
}

/// The spec-level value of a [`FieldError`]: its field name and message as
/// character sequences.
pub open spec fn fe_view(e: FieldError) -> (Seq<char>, Seq<char>) {
    (e.field@, e.message@)
}

/// The spec-level value of a list of field errors.
pub open spec fn errors_view(es: Seq<FieldError>) -> Seq<(Seq<char>, Seq<char>)> {
    es.map_values(|e: FieldError| fe_view(e))
}

impl FieldError {
    pub fn new(field: String, message: String) -> (r: Self)
        ensures
            r.field@ == field@,
            r.message@ == message@,
    {
        Self { field, message }
    }
}

} // verus!
