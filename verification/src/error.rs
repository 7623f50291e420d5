use vstd::prelude::*;

verus! {

/// The error taxonomy of the registry: malformed input, a secret mismatch on
/// an existing identity, a version that is not newer than the stored one,
/// and a storage failure.
#[derive(Clone, Copy, Debug, PartialEq, Eq, Structural)]
pub enum ErrorKind {
    Validation,
    Authorization,
    StaleVersion,
    Backend,
}

/// A tagged error: the kind for programmatic handling, the message as the
/// caller-visible text.
#[derive(Clone, Copy, Debug)]
pub struct RegistryError {
    pub kind: ErrorKind,
    pub message: &'static str,
}

/// The ghost value of an error: its kind and the text of its message.
pub struct RegistryErrorV {
    pub kind: ErrorKind,
    pub message: Seq<char>,
}

impl View for RegistryError {
    type V = RegistryErrorV;

    open spec fn view(&self) -> RegistryErrorV {
        RegistryErrorV { kind: self.kind, message: self.message@ }
    }
}

impl RegistryError {
    /// The caller-visible text of the error.
    pub fn text(&self) -> (r: &'static str)
        ensures
            r@ == self@.message,
    {
        self.message
    }
}

} // verus!
