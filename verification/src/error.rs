//! The failures that the operations of this library report.
use vstd::prelude::*;

verus! {

/// Why an operation failed. Every fallible operation above packet construction reports
/// one of these, and none is retried.
#[derive(Clone, Copy, Debug, PartialEq, Eq, Structural)]
pub enum RconError {
    /// A command, password or response body is longer than a packet may carry.
    BodyTooLarge,
    /// The declared size of a frame is out of bounds, or its body is not valid text.
    MalformedPacket,
    /// The byte stream ended before the frame did.
    IoFailure,
    /// The handshake completed and the peer refused the credentials.
    AuthenticationRejected,
    /// The peer never produced an authentication response.
    AuthenticationProtocolError,
}

impl RconError {
    /// The error in words.
    pub open spec fn text(self) -> Seq<char> {
        match self {
            RconError::BodyTooLarge => "Provided body data is too large."@,
            RconError::MalformedPacket => "Malformed packet."@,
            RconError::IoFailure => "Unexpected end of stream."@,
            RconError::AuthenticationRejected => "Authentication failed. Wrong password."@,
            RconError::AuthenticationProtocolError =>
                "No valid authentication protocol by server."@,
        }
    }

    /// The error in words.
    pub fn description(&self) -> (text: &'static str)
        ensures
            text@ == self.text(),
    {
        match self {
            RconError::BodyTooLarge => "Provided body data is too large.",
            RconError::MalformedPacket => "Malformed packet.",
            RconError::IoFailure => "Unexpected end of stream.",
            RconError::AuthenticationRejected => "Authentication failed. Wrong password.",
            RconError::AuthenticationProtocolError =>
                "No valid authentication protocol by server.",
        }
    }
}

} // verus!
