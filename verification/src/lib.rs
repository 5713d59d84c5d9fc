//! Typed, dynamically described record storage over flat byte buffers.
//!
//! A record type is an ordered list of named, typed fields whose byte offsets
//! are computed from per-kind size and alignment rules. A record instance is
//! a flat byte region owned by an external store; an accessor reads and
//! writes single fields of that region, reinterpreting sub-slices according
//! to each field's kind, with managed kinds held behind handles into a side
//! pool so that overwrites release the previous value.

pub mod kinds;
pub mod accessor;
pub mod codec;
pub mod laws;
pub mod layout;
pub mod model;
pub mod pool;
pub mod value;
