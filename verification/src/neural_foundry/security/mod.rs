//! Engine permission schema and model slots.
pub mod permission_schema;
