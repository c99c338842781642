//! What can go wrong while a connection is set up.

use vstd::prelude::*;

verus! {

/// Why a connection could not be set up.
#[derive(Copy, Clone, Debug, PartialEq, Eq, Structural)]
pub enum SetupError {
    /// A channel is configured for messages without a byte.
    ZeroMessageSize,
    /// The shared memory or an event descriptor cannot be had.
    ResourceFailed,
    /// The channels cannot be laid out in the shared memory.
    VectorFailed,
    /// A descriptor cannot be duplicated.
    CloneFailed,
}

/// The D-Bus errors under which a failed setup is reported.
#[derive(Copy, Clone, Debug, PartialEq, Eq, Structural)]
pub enum BusErrorKind {
    InvalidArgs,
    Failed,
}

impl SetupError {
    /// Only a descriptor that cannot be duplicated is no fault of the arguments.
    pub fn kind(self) -> (r: BusErrorKind)
        ensures
            r is Failed <==> self is CloneFailed,
    {
        match self {
            SetupError::CloneFailed => BusErrorKind::Failed,
            _ => BusErrorKind::InvalidArgs,
        }
    }

    pub open spec fn text(self) -> Seq<char> {
        match self {
            SetupError::ZeroMessageSize => "message_size can't be zero"@,
            SetupError::ResourceFailed => "VectorResource failed"@,
            SetupError::VectorFailed => "ChannelVector filed"@,
            SetupError::CloneFailed => "try_clone_to_owned failed"@,
        }
    }

    /// The message of the D-Bus error.
    pub fn message(self) -> (r: String)
        ensures
            r@ == self.text(),
    {
        match self {
            SetupError::ZeroMessageSize => "message_size can't be zero".to_owned(),
            SetupError::ResourceFailed => "VectorResource failed".to_owned(),
            SetupError::VectorFailed => "ChannelVector filed".to_owned(),
            SetupError::CloneFailed => "try_clone_to_owned failed".to_owned(),
        }
    }
}

} // verus!
