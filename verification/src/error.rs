//! The error type of every fallible operation of the crate.

use crate::results::PowerDnaError;
use vstd::prelude::*;
use vstd::std_specs::convert::FromSpecImpl;

verus! {

/// Why an operation on a stream or a board was refused or failed.
#[derive(Clone, Copy, Debug, PartialEq, Eq, Structural)]
pub enum DaqError {
    /// The size of the inbound scan buffer does not fit the driver's counter.
    BufferError,
    /// A driver call failed.
    PowerDnaError { source: PowerDnaError },
    /// The stream is not in a state that allows the operation.
    StreamStateError,
    /// The channel configuration of the boards cannot be sampled or merged.
    ChannelConfigError,
    /// A channel asks for a gain the hardware does not offer.
    GainConfigError,
}

impl From<PowerDnaError> for DaqError {
    fn from(source: PowerDnaError) -> (error: DaqError) {
        DaqError::PowerDnaError { source }
    }
}

impl FromSpecImpl<PowerDnaError> for DaqError {
    open spec fn obeys_from_spec() -> bool {
        true
    }

    open spec fn from_spec(source: PowerDnaError) -> DaqError {
        DaqError::PowerDnaError { source }
    }
}

impl DaqError {
    /// The text shown to an operator for this error.
    pub open spec fn message_text(&self) -> Seq<char> {
        match self {
            DaqError::BufferError => "Failed to allocate inbound data buffer."@,
            DaqError::PowerDnaError { .. } => "Internal error."@,
            DaqError::StreamStateError => "Invalid state for this action."@,
            DaqError::ChannelConfigError => "Unexpected number of channels."@,
            DaqError::GainConfigError => "Unexpected gain value."@,
        }
    }

    pub fn message(&self) -> (text: &'static str)
        ensures
            text@ == self.message_text(),
    {
        match self {
            DaqError::BufferError => "Failed to allocate inbound data buffer.",
            DaqError::PowerDnaError { .. } => "Internal error.",
            DaqError::StreamStateError => "Invalid state for this action.",
            DaqError::ChannelConfigError => "Unexpected number of channels.",
            DaqError::GainConfigError => "Unexpected gain value.",
        }
    }

    /// The driver failure behind this error, if there is one.
    pub fn source(&self) -> (source: Option<PowerDnaError>)
        ensures
            source == match *self {
                DaqError::PowerDnaError { source } => Some(source),
                _ => None,
            },
    {
        match self {
            DaqError::PowerDnaError { source } => Some(*source),
            _ => None,
        }
    }
}

} // verus!
