//! Codec for the LD telemetry log container: decoding a file image into
//! structured records and laying records out as a file image.

pub mod chain;
pub mod error;
pub mod format;
pub mod laws;
pub mod reader;
pub mod regions;
pub mod structs;
pub mod wire;
pub mod writer;

pub use error::{I2Error, I2Result, IoErrorKind};
pub use format::{AddressTable, CHANNEL_META_START, LD_HEADER_MARKER};
pub use reader::LDReader;
pub use structs::{
    Channel, Datatype, Event, FileAddr, FileChannel, Header, Sample, Vehicle, Venue,
};
pub use writer::{ByteSink, LDWriter};
