//! A forward-only ZIP64 archive encoder.
//!
//! The library computes every byte of the archive: the local header of each
//! entry, the running CRC-32 and size of its content, the trailing data
//! descriptor, the central directory and the end-of-archive records. The
//! caller reads the sources and writes the produced bytes to its sink.
pub mod bytes;
pub mod crc;
pub mod dostime;
pub mod error;
pub mod file;
pub mod laws;
pub mod stream;

pub use dostime::Timestamp;
pub use error::ZipError;
pub use file::FileToZip;
pub use stream::ZipStream;
