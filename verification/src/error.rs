//! The ways in which decoding a frame or talking to the bus can fail.

use vstd::prelude::*;

verus! {

/// Why a byte buffer could not be turned into a message.
#[derive(Clone, Copy, Debug, PartialEq, Eq, Structural)]
pub enum DecodeError {
    /// The buffer ends before the value does.
    Truncated,
    /// The bytes are all there but do not form a value of the type.
    Malformed,
    /// The leading fingerprint is not the one of the expected type.
    TypeMismatch,
}

/// Why an operation of the client failed.
#[derive(Clone, Copy, Debug, PartialEq, Eq, Structural)]
pub enum LcmError {
    /// The bus could not be brought up.
    FailedToInitialize,
    /// The bus did not accept the registration.
    FailedToSubscribe,
    /// The bus did not know the subscription that was to be removed.
    FailedToUnsubscribe,
    /// The bus did not accept the frame.
    FailedToPublish,
    /// No message arrived within the time allowed.
    Timeout,
    /// The bus reported a failure while waiting for a message.
    InternalError,
}

impl DecodeError {
    /// The words for the error.
    pub open spec fn spec_message(&self) -> Seq<char> {
        match self {
            DecodeError::Truncated => "buffer ends before the value does"@,
            DecodeError::Malformed => "bytes do not form a value of the type"@,
            DecodeError::TypeMismatch => "fingerprint of another type"@,
        }
    }

    /// The words for the error.
    pub fn message(&self) -> (text: &'static str)
        ensures
            text@ == self.spec_message(),
    {
        match self {
            DecodeError::Truncated => "buffer ends before the value does",
            DecodeError::Malformed => "bytes do not form a value of the type",
            DecodeError::TypeMismatch => "fingerprint of another type",
        }
    }
}

impl LcmError {
    /// The words for the error.
    pub open spec fn spec_message(&self) -> Seq<char> {
        match self {
            LcmError::FailedToInitialize => "Failed to initialize LCM."@,
            LcmError::FailedToSubscribe => "LCM: Failed to subscribe"@,
            LcmError::FailedToUnsubscribe => "LCM: Failed to unsubscribe"@,
            LcmError::FailedToPublish => "LCM: Failed to publish"@,
            LcmError::Timeout => "LCM Timeout"@,
            LcmError::InternalError => "LCM Error"@,
        }
    }

    /// The words for the error.
    pub fn message(&self) -> (text: &'static str)
        ensures
            text@ == self.spec_message(),
    {
        match self {
            LcmError::FailedToInitialize => "Failed to initialize LCM.",
            LcmError::FailedToSubscribe => "LCM: Failed to subscribe",
            LcmError::FailedToUnsubscribe => "LCM: Failed to unsubscribe",
            LcmError::FailedToPublish => "LCM: Failed to publish",
            LcmError::Timeout => "LCM Timeout",
            LcmError::InternalError => "LCM Error",
        }
    }
}

} // verus!
