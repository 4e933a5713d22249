//! Errors of the brokers and of the message protocol.

use vstd::prelude::*;

verus! {

/// The error type of `lapin`, carried as it comes.
#[verifier::external_type_specification]
#[verifier::external_body]
pub struct ExLapinError(lapin::Error);

/// The error type of the `redis` crate, carried as it comes.
#[verifier::external_type_specification]
#[verifier::external_body]
pub struct ExRedisError(::redis::RedisError);

/// Why a delivery could not be read as a message.
#[derive(Debug, PartialEq, Eq)]
pub enum ProtocolError {
    /// The delivery has no headers at all.
    MissingHeaders,
    /// A property that every message has is absent.
    MissingRequiredProperty(String),
    /// A header that every message has is absent or not a text.
    MissingRequiredHeader(String),
}

/// The model of a [`ProtocolError`].
pub enum ProtocolErrorView {
    MissingHeaders,
    MissingRequiredProperty(Seq<char>),
    MissingRequiredHeader(Seq<char>),
}

impl View for ProtocolError {
    type V = ProtocolErrorView;

    open spec fn view(&self) -> ProtocolErrorView {
        match self {
            ProtocolError::MissingHeaders => ProtocolErrorView::MissingHeaders,
            ProtocolError::MissingRequiredProperty(name) => {
                ProtocolErrorView::MissingRequiredProperty(name@)
            },
            ProtocolError::MissingRequiredHeader(name) => {
                ProtocolErrorView::MissingRequiredHeader(name@)
            },
        }
    }
}

/// Why a broker operation failed.
#[derive(Debug)]
pub enum BrokerError {
    /// The broker URL could not be used; the text is what may be shown of it.
    InvalidBrokerUrl(String),
    /// No queue of this name was declared.
    UnknownQueue(String),
    /// The broker cannot be reached.
    NotConnected,
    /// A message could not be read.
    ProtocolError(ProtocolError),
    /// An error of the AMQP connection.
    AMQPError(lapin::Error),
    /// An error of the Redis connection.
    RedisError(::redis::RedisError),
}

} // verus!
