//! The failures a session can end with.

use vstd::prelude::*;
use vstd::string::*;
use crate::number::{decimal_text, signed_to_decimal};

verus! {

/// Why a session stopped. Every layer hands the first failure up unchanged.
#[derive(Debug, Clone, PartialEq, Eq)]
pub enum SessionError {
    /// The endpoint text is no usable URL, or gives no address to go to.
    AddressError,
    /// The raw stream could not be opened.
    ConnectError,
    /// The TLS handshake failed.
    TlsError,
    /// The peer refused the protocol upgrade.
    UpgradeError,
    /// The channel closed while a reply was still awaited.
    ClosedError,
    /// An inbound payload could not be decoded, or lacks an expected field.
    MalformedFrameError,
    /// The remote answered the call with an error of its own.
    RpcError { code: i64, message: String },
    /// A block number is neither decimal nor hexadecimal text.
    NumericFormatError,
}

impl SessionError {
    /// The line that renders the error: a fixed text for each kind, and for
    /// the remote's own error its code and its message as well.
    pub open spec fn rendering(e: SessionError) -> Seq<char> {
        match e {
            SessionError::AddressError => "no usable address for the endpoint"@,
            SessionError::ConnectError => "connection failed"@,
            SessionError::TlsError => "TLS handshake failed"@,
            SessionError::UpgradeError => "protocol upgrade rejected"@,
            SessionError::ClosedError => "connection closed before receiving response"@,
            SessionError::MalformedFrameError => "malformed frame"@,
            SessionError::RpcError { code, message } => "remote error "@
                + decimal_text(code as int) + ": "@ + message@,
            SessionError::NumericFormatError => "invalid block number format"@,
        }
    }

    /// The one-line rendering shown to a user.
    pub fn describe(&self) -> (r: String)
        ensures
            r@ == Self::rendering(*self),
    {
        match self {
            SessionError::AddressError => String::from_str("no usable address for the endpoint"),
            SessionError::ConnectError => String::from_str("connection failed"),
            SessionError::TlsError => String::from_str("TLS handshake failed"),
            SessionError::UpgradeError => String::from_str("protocol upgrade rejected"),
            SessionError::ClosedError => String::from_str(
                "connection closed before receiving response",
            ),
            SessionError::MalformedFrameError => String::from_str("malformed frame"),
            SessionError::RpcError { code, message } => {
                let mut out = String::from_str("remote error ");
                let number = signed_to_decimal(*code);
                out.append(number.as_str());
                out.append(": ");
                out.append(message.as_str());
                out
            },
            SessionError::NumericFormatError => String::from_str("invalid block number format"),
        }
    }
}

} // verus!
