//! Reading and writing of YUV4MPEG2 (`.y4m`) streams over byte buffers.
//!
//! A stream is one prologue line that gives geometry, timing and pixel
//! layout, followed by frame records of raw planar samples. Every function
//! here carries a contract over byte sequences; the streams themselves are
//! plain buffers, so that a caller doing transport supplies bytes and takes
//! bytes back.

pub mod bytes;
pub mod colorspace;
pub mod decimal;
pub mod decoder;
pub mod encoder;
pub mod error;
pub mod frame;
pub mod header;
pub mod layout;
pub mod ratio;
pub mod roundtrip;
pub mod scan;
pub mod vendor;

pub use colorspace::Colorspace;
pub use decimal::parse_bytes;
pub use decoder::{decode, Decoder};
pub use encoder::{encode, Encoder, EncoderBuilder};
pub use error::{Error, ParseError};
pub use frame::Frame;
pub use header::{Header, Limits};
pub use layout::get_plane_sizes;
pub use ratio::Ratio;
pub use scan::{LineScan, ScanStep};
pub use vendor::VendorExtensionString;
