//! Built-in message types, serialized with ordinary message syntax in
//! a consistent way.

mod timestamp;

pub use self::timestamp::Timestamp;
