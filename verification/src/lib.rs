//! A typed, partitioned key-value layer over an ordered byte-map engine.

pub mod bytes;
pub mod error;
pub mod key;
pub mod model;
pub mod record;
pub mod scale;
pub mod scan;
pub mod store;
pub mod value;
