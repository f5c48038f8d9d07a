//! Apache Thrift wire codecs: the binary and the compact encodings, each with an
//! encoder half and a decoder half over an in-memory byte channel.
//!
//! Every operation states in its contract the bytes it writes or the bytes it
//! accepts, and `laws` proves that each decoder reads back what its encoder
//! wrote.

pub mod binary;
pub mod channel;
pub mod compact;
pub mod config;
pub mod errors;
pub mod laws;
pub mod types;
pub mod wire;

pub use binary::{
    TBinaryInputProtocol, TBinaryInputProtocolFactory, TBinaryOutputProtocol,
    TBinaryOutputProtocolFactory,
};
pub use channel::TBufferChannel;
pub use compact::{
    TCompactInputProtocol, TCompactInputProtocolFactory, TCompactOutputProtocol,
    TCompactOutputProtocolFactory,
};
pub use config::{TConfiguration, TConfigurationBuilder};
pub use errors::{
    Error, ProtocolError, ProtocolErrorKind, Result, TransportError, TransportErrorKind,
};
pub use types::{
    TFieldIdentifier, TListIdentifier, TMapIdentifier, TMessageIdentifier, TMessageType,
    TSetIdentifier, TStructIdentifier, TType, TUuid,
};
