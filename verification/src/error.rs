use vstd::prelude::*;

verus! {

/// Error returned when a dynamic value cannot be converted to the requested
/// type: it carries a description naming the target type that could not be
/// produced.
#[derive(Debug, Clone, PartialEq, Eq)]
pub struct StructMapError(String);

impl View for StructMapError {
    type V = Seq<char>;

    closed spec fn view(&self) -> Seq<char> {
        self.0@
    }
}

impl StructMapError {
    /// Creates an error carrying the given description.
    pub fn new(content: &str) -> (r: Self)
        ensures
            r@ == content@,
    {
        StructMapError(content.to_owned())
    }

    /// The error's description, naming the type that could not be produced.
    pub fn message(&self) -> (r: &str)
        ensures
            r@ == self@,
    {
        self.0.as_str()
    }
}

} // verus!
