//! A client for the Genesis DB event store.
//!
//! The library holds what the client decides: the checked configuration,
//! endpoint addresses and the authorization header, the mapping of HTTP
//! status codes to errors, the decoding of newline-delimited JSON bodies, and
//! the incremental decoder that turns the chunks of a live response into
//! events.
pub mod client;
pub mod decoder;
pub mod error;
pub mod json;
pub mod text;
pub mod types;

pub use client::{check_status, Client, ClientConfig};
pub use decoder::{parse_event_lines, parse_value_lines, EventDecoder};
pub use error::Error;
pub use types::{
    decode_event, default_spec_version, CloudEvent, CommitEvent, CommitEventOptions, Precondition,
    StreamOptions,
};
