use vstd::prelude::*;

verus! {

/// A request that was malformed before it reached the engine.
#[derive(Clone, Debug, PartialEq, Eq)]
pub enum BindingError {
    /// Two bindings carry this name.
    DuplicateBinding(String),
    /// The template refers to this name and nothing binds it.
    UnboundPlaceholder(String),
}

/// Why an execution did not yield its responses.
#[derive(Clone, Debug, PartialEq, Eq)]
pub enum ExecutionError {
    /// The template holds no statement.
    EmptyTemplate,
    /// The request was malformed; it was never sent.
    Binding(BindingError),
    /// The transport failed; the caller may retry.
    Connection(String),
    /// The engine rejected or failed the query.
    Engine(String),
    /// The engine answered fewer or more statements than were sent.
    Incomplete { requested: usize, produced: usize },
}

/// Why a response did not decode into records.
#[derive(Clone, Debug, PartialEq, Eq)]
pub enum DecodeError {
    /// There was no response at all.
    EmptyResponse,
    /// The first response carried the engine's error.
    Upstream(String),
    /// The first response's result was not an array of records.
    UnexpectedShape,
    /// One element of the record set was not an object.
    ElementNotObject,
    /// The record has no `id` field holding a record identifier.
    MissingId,
}

} // verus!
