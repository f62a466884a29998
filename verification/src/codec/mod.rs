//! Messages on byte streams.
pub mod decoder;
pub mod encoder;
pub mod length_delimited;
pub mod reader;
pub mod rotating;
pub mod writer;

pub use self::decoder::MessageDecoder;
pub use self::encoder::{MessageEncoder, Payload};
pub use self::length_delimited::{
    LengthDelimitedDecoder, LengthDelimitedEncodeError, LengthDelimitedEncoder, LengthDelimitedError,
};
pub use self::reader::{MessageReadError, MessageReader};
pub use self::rotating::RotatingMessageReader;
pub use self::writer::{MessageWriteError, MessageWriter};
