use vstd::prelude::*;

verus! {

/// A failure during `setup`: fatal to the node instance, raised before it runs.
#[derive(Debug, Clone, Copy, PartialEq, Eq, Structural)]
pub enum SetupError {
    /// A requested port name is absent from the wiring, or was already taken.
    PortNotFound,
    /// A configuration value is present but malformed.
    MalformedConfig,
}

/// A failure during one invocation: reported, and the node state is left as it was.
#[derive(Debug, Clone, Copy, PartialEq, Eq, Structural)]
pub enum InvocationError {
    /// A control message arrived where data was expected.
    NoData,
    /// The result does not fit in the payload's integer type.
    Overflow,
}

} // verus!
