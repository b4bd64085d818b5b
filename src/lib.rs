//! Unsigned integers tagged with the byte order they are stored in.
//!
//! `BigEndian<T>` and `LittleEndian<T>` hold a `u32` or `u64` as bytes in a fixed order,
//! whatever the host's own order. Values go in with `From<T>` (or `From<Wrapping<T>>`) and come
//! out with `T::from`; `as_bytes` lays a run of them out as one byte buffer.
pub mod encoding;
pub mod order;
pub mod wrappers;

pub use encoding::{as_bytes, Encoding, Native};
pub use wrappers::{BigEndian, LittleEndian};
