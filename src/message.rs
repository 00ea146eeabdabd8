use vstd::prelude::*;

use crate::error::InvocationError;

verus! {

/// A stream lifecycle event carried in place of data.
#[derive(Debug, Clone, Copy, PartialEq, Eq, Structural)]
pub enum ControlKind {
    /// The upstream peer closed the stream.
    EndOfStream,
}

/// The unit exchanged over a port: a payload with an optional timestamp,
/// or a control signal.
#[derive(Debug)]
pub enum Message<T> {
    Data { payload: T, timestamp: Option<u64> },
    Control(ControlKind),
}

impl<T> Message<T> {
    /// The payload of a data message; a control message is `NoData`, never data.
    pub fn into_data(self) -> (r: Result<T, InvocationError>)
        ensures
            match self {
                Message::Data { payload, .. } => r == Ok::<T, InvocationError>(payload),
                Message::Control(_) => r == Err::<T, InvocationError>(InvocationError::NoData),
            },
    {
        match self {
            Message::Data { payload, .. } => Ok(payload),
            Message::Control(_) => Err(InvocationError::NoData),
        }
    }
}

} // verus!
