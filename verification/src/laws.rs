//! What the operations do, said of their inputs and results alone.
//!
//! Each law takes the inputs of a call and a result that the call may have, and
//! says in characters, numbers and fields what that result is.

pub mod drawing;
pub mod placing;
pub mod refreshing;
pub mod remembering;
pub mod switching;
pub mod titles;
