//! A typed, persistent, fixed-size array.
//!
//! A file (or an in-memory buffer standing in for one) holds a small
//! fixed-size header followed by a contiguous run of fixed-layout elements.
//! The header records the format's magic marker, the number of elements the
//! file was created to hold, and a fingerprint of the element type, so that
//! opening a file with the wrong element type is detected instead of
//! reinterpreting foreign bytes.

pub mod element;
pub mod header;
pub mod persistent_array;
pub mod region;

pub use element::Element;
pub use header::{Header, HEADER_SIZE, MAGIC};
pub use persistent_array::{Error, PersistentArray};
pub use region::Region;
