//! The commands that ask the parent shell to change its environment, and the
//! channel that hands them over.

pub mod channel;
pub mod command;
