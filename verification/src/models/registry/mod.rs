//! Where models live and how their categories map to folders and endpoints,
//! and how well the machine can run them.
pub mod auditor;
pub mod discovery;
pub mod vault;
