//! Bounded streaming, nested-field projection, row-group metadata
//! aggregation and random sampling for columnar row-group files.

pub mod limiter;
pub mod formats;
pub mod projection;
pub mod metadata;
pub mod sample;
pub mod size;
pub mod json_text;
pub mod dispatch;
