//! Error values of the networking layer and their classification.

use vstd::prelude::*;
use crate::peer_addr::PeerAddress;

verus! {

/// Errors of connections, transports, messages, security and
/// configuration.
#[derive(Debug, Clone, PartialEq)]
#[allow(inconsistent_fields)]
pub enum NetworkError {
    ConnectionFailed { address: PeerAddress, reason: String },
    ConnectionLost { address: PeerAddress, reason: String },
    ConnectionLimitExceeded { current: usize, max: usize },
    InvalidPeerAddress { address: String },
    TransportNotStarted,
    TransportAlreadyRunning,
    AlreadyRunning,
    UnsupportedTransport { transport_type: String },
    MessageTooLarge { size: usize, max_size: usize },
    SerializationError { reason: String },
    DeserializationError { reason: String },
    MessageTimeout { timeout_ms: u64 },
    AuthenticationFailed { peer: PeerAddress, reason: String },
    EncryptionError { reason: String },
    CertificateError { reason: String },
    InvalidConfiguration { field: String, value: String, reason: String },
    MissingConfiguration { field: String },
    ResourceExhausted { resource: String, current: usize, max: usize },
    InsufficientBandwidth { required_bps: u64, available_bps: u64 },
    IoError { reason: String },
    InterfaceError { interface: String, reason: String },
    ProtocolVersionMismatch { expected: u32, actual: u32 },
    MalformedMessage { reason: String },
    UnexpectedMessageType { message_type: String },
}

/// Which errors are worth retrying.
pub open spec fn spec_net_recoverable(e: &NetworkError) -> bool {
    ||| e is ConnectionFailed
    ||| e is ConnectionLost
    ||| e is MessageTimeout
    ||| e is InsufficientBandwidth
    ||| e is IoError
    ||| e is InterfaceError
}

/// The metrics category of each error.
pub open spec fn spec_net_category(e: &NetworkError) -> Seq<char> {
    match e {
        NetworkError::ConnectionFailed { .. }
        | NetworkError::ConnectionLost { .. }
        | NetworkError::ConnectionLimitExceeded { .. }
        | NetworkError::InvalidPeerAddress { .. } => "connection"@,
        NetworkError::TransportNotStarted
        | NetworkError::TransportAlreadyRunning
        | NetworkError::UnsupportedTransport { .. } => "transport"@,
        NetworkError::MessageTooLarge { .. }
        | NetworkError::SerializationError { .. }
        | NetworkError::DeserializationError { .. }
        | NetworkError::MessageTimeout { .. } => "message"@,
        NetworkError::AuthenticationFailed { .. }
        | NetworkError::EncryptionError { .. }
        | NetworkError::CertificateError { .. } => "security"@,
        NetworkError::InvalidConfiguration { .. }
        | NetworkError::MissingConfiguration { .. } => "configuration"@,
        NetworkError::ResourceExhausted { .. }
        | NetworkError::InsufficientBandwidth { .. } => "resource"@,
        NetworkError::IoError { .. }
        | NetworkError::InterfaceError { .. } => "io"@,
        NetworkError::ProtocolVersionMismatch { .. }
        | NetworkError::MalformedMessage { .. }
        | NetworkError::UnexpectedMessageType { .. } => "protocol"@,
        NetworkError::AlreadyRunning => "state"@,
    }
}

/// The logging severity of each error.
pub open spec fn spec_net_severity(e: &NetworkError) -> Seq<char> {
    match e {
        NetworkError::ResourceExhausted { .. }
        | NetworkError::ConnectionLimitExceeded { .. }
        | NetworkError::CertificateError { .. } => "critical"@,
        NetworkError::AuthenticationFailed { .. }
        | NetworkError::EncryptionError { .. }
        | NetworkError::ProtocolVersionMismatch { .. }
        | NetworkError::InvalidConfiguration { .. }
        | NetworkError::MissingConfiguration { .. } => "error"@,
        NetworkError::ConnectionFailed { .. }
        | NetworkError::ConnectionLost { .. }
        | NetworkError::MessageTimeout { .. }
        | NetworkError::InsufficientBandwidth { .. }
        | NetworkError::IoError { .. }
        | NetworkError::InterfaceError { .. } => "warning"@,
        NetworkError::TransportNotStarted
        | NetworkError::TransportAlreadyRunning
        | NetworkError::UnsupportedTransport { .. }
        | NetworkError::InvalidPeerAddress { .. }
        | NetworkError::MessageTooLarge { .. }
        | NetworkError::SerializationError { .. }
        | NetworkError::DeserializationError { .. }
        | NetworkError::MalformedMessage { .. }
        | NetworkError::UnexpectedMessageType { .. } => "info"@,
        NetworkError::AlreadyRunning => "warn"@,
    }
}

impl NetworkError {
    /// Whether the error is worth retrying.
    pub fn is_recoverable(&self) -> (res: bool)
        ensures
            res == spec_net_recoverable(self),
    {
        match self {
            NetworkError::ConnectionFailed { .. } => true,
            NetworkError::ConnectionLost { .. } => true,
            NetworkError::MessageTimeout { .. } => true,
            NetworkError::InsufficientBandwidth { .. } => true,
            NetworkError::IoError { .. } => true,
            NetworkError::InterfaceError { .. } => true,
            _ => false,
        }
    }

    /// The category used for metrics and logging.
    pub fn category(&self) -> (res: &'static str)
        ensures
            res@ == spec_net_category(self),
    {
        match self {
            NetworkError::ConnectionFailed { .. }
            | NetworkError::ConnectionLost { .. }
            | NetworkError::ConnectionLimitExceeded { .. }
            | NetworkError::InvalidPeerAddress { .. } => "connection",
            NetworkError::TransportNotStarted
            | NetworkError::TransportAlreadyRunning
            | NetworkError::UnsupportedTransport { .. } => "transport",
            NetworkError::MessageTooLarge { .. }
            | NetworkError::SerializationError { .. }
            | NetworkError::DeserializationError { .. }
            | NetworkError::MessageTimeout { .. } => "message",
            NetworkError::AuthenticationFailed { .. }
            | NetworkError::EncryptionError { .. }
            | NetworkError::CertificateError { .. } => "security",
            NetworkError::InvalidConfiguration { .. }
            | NetworkError::MissingConfiguration { .. } => "configuration",
            NetworkError::ResourceExhausted { .. }
            | NetworkError::InsufficientBandwidth { .. } => "resource",
            NetworkError::IoError { .. }
            | NetworkError::InterfaceError { .. } => "io",
            NetworkError::ProtocolVersionMismatch { .. }
            | NetworkError::MalformedMessage { .. }
            | NetworkError::UnexpectedMessageType { .. } => "protocol",
            NetworkError::AlreadyRunning => "state",
        }
    }

    /// The severity used for logging.
    pub fn severity(&self) -> (res: &'static str)
        ensures
            res@ == spec_net_severity(self),
    {
        match self {
            NetworkError::ResourceExhausted { .. }
            | NetworkError::ConnectionLimitExceeded { .. }
            | NetworkError::CertificateError { .. } => "critical",
            NetworkError::AuthenticationFailed { .. }
            | NetworkError::EncryptionError { .. }
            | NetworkError::ProtocolVersionMismatch { .. }
            | NetworkError::InvalidConfiguration { .. }
            | NetworkError::MissingConfiguration { .. } => "error",
            NetworkError::ConnectionFailed { .. }
            | NetworkError::ConnectionLost { .. }
            | NetworkError::MessageTimeout { .. }
            | NetworkError::InsufficientBandwidth { .. }
            | NetworkError::IoError { .. }
            | NetworkError::InterfaceError { .. } => "warning",
            NetworkError::TransportNotStarted
            | NetworkError::TransportAlreadyRunning
            | NetworkError::UnsupportedTransport { .. }
            | NetworkError::InvalidPeerAddress { .. }
            | NetworkError::MessageTooLarge { .. }
            | NetworkError::SerializationError { .. }
            | NetworkError::DeserializationError { .. }
            | NetworkError::MalformedMessage { .. }
            | NetworkError::UnexpectedMessageType { .. } => "info",
            NetworkError::AlreadyRunning => "warn",
        }
    }
}

} // verus!
