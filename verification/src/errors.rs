//! Failure taxonomy of the reply composer. Every variant is fatal for the run
//! that raises it; the variants make the failure kind inspectable.

use vstd::prelude::*;

verus! {

/// Which mandatory part of the inbound message was missing.
#[derive(Clone, Copy, Debug, PartialEq, Eq, Structural)]
pub enum ParseFault {
    /// The raw bytes could not be decoded as a message at all.
    Unparsable,
    /// No author (`From`) mailbox was found.
    MissingAuthor,
    /// No `Date` header was found.
    MissingDate,
    /// No `Message-ID` header was found.
    MissingMessageId,
    /// No `Subject` header was found.
    MissingSubject,
    /// No plain-text body part was found.
    MissingBody,
}

/// What part of the operator configuration was unusable.
#[derive(Clone, Copy, Debug, PartialEq, Eq, Structural)]
pub enum ConfigFault {
    /// No operator address is configured.
    MissingAddress,
    /// The configured operator address is not a valid address.
    MalformedAddress,
}

/// A fatal error of the reply composer.
#[derive(Clone, Copy, Debug, PartialEq, Eq, Structural)]
pub enum ReplyError {
    /// Missing or malformed operator identity or transport settings.
    Configuration(ConfigFault),
    /// The inbound message lacks a mandatory field.
    Parse(ParseFault),
    /// A malformed participant address (sender, recipient or Cc).
    Validation,
    /// A transport preference that names a non-local relay, which this tool
    /// does not deliver to.
    UnsupportedConfiguration,
    /// The delivery mechanism failed to run or reported failure.
    Transport,
}

impl ReplyError {
    /// A short diagnostic text for the variant.
    pub fn describe(&self) -> String {
        match self {
            ReplyError::Configuration(ConfigFault::MissingAddress) => String::from_str(
                "no operator address configured",
            ),
            ReplyError::Configuration(ConfigFault::MalformedAddress) => String::from_str(
                "configured operator address is malformed",
            ),
            ReplyError::Parse(ParseFault::Unparsable) => String::from_str(
                "input is not a parsable message",
            ),
            ReplyError::Parse(ParseFault::MissingAuthor) => String::from_str("message has no author"),
            ReplyError::Parse(ParseFault::MissingDate) => String::from_str("message has no date"),
            ReplyError::Parse(ParseFault::MissingMessageId) => String::from_str(
                "message has no message id",
            ),
            ReplyError::Parse(ParseFault::MissingSubject) => String::from_str(
                "message has no subject",
            ),
            ReplyError::Parse(ParseFault::MissingBody) => String::from_str(
                "message has no text body",
            ),
            ReplyError::Validation => String::from_str("malformed participant address"),
            ReplyError::UnsupportedConfiguration => String::from_str(
                "relay delivery over the network is not supported",
            ),
            ReplyError::Transport => String::from_str("delivery failed"),
        }
    }
}

} // verus!
