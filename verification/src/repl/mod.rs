//! The interactive session's decisions: what the console shows for each
//! transport event, and which transport events a participant's output and a
//! typed line become.
pub mod debug;
pub mod human;
pub mod output;
pub mod render;
pub mod transport;
