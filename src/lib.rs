//! Reader for the Audio Data Transport Stream framing format that usually
//! carries AAC audio.
//!
//! [`AdtsHeader`] decodes the fields of the frame header at the start of a
//! byte buffer. [`AdtsParser`] finds frames in a stream that arrives in
//! chunks of any size and passes configuration, payloads and errors to an
//! [`AdtsConsumer`].
//!
//! Not supported: resynchronising after a bitstream error, copyright
//! identifiers, and checking the CRC.

pub mod header;
pub mod parser;
pub mod stream;

pub use header::{
    AdtsHeader, AdtsHeaderError, AudioObjectType, ChannelConfiguration, CopyrightIdErr,
    CopyrightIdentification, CopyrightIdentificationStart, MpegVersion, Originality,
    PayloadError, ProtectionIndicator, SamplingFrequency,
};
pub use parser::{AdtsConsumer, AdtsParser};
pub use stream::{AdtsParseError, Notification, StreamState};
