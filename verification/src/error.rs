use vstd::prelude::*;

verus! {

/// Errors reported by the core modules.
#[derive(Debug)]
pub enum CoreError {
    /// A gate transition was refused.
    GateTransitionDenied { from: String, to: String, reason: String },
    /// The value anchor refused a modification.
    ExistentialViolation(String),
    /// The message bus refused a message.
    BusError(String),
    /// The world model refused an entity or an event.
    WorldError(String),
    /// A value could not be serialised.
    Serialization(String),
}

/// Result type of the core modules.
pub type CoreResult<T> = Result<T, CoreError>;

} // verus!
