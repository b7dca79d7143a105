//! Best-effort decoding of typed records from key/value streams in which a
//! key may repeat or be unknown.

pub mod merge;
pub mod bucket;
pub mod schema;
pub mod record;
pub mod roots;
pub mod strict;
pub mod laws;
