//! Skills: instruction files and the trigger router.
pub mod parser;
pub mod router;
