//! The core of a small interactive command interpreter: it splits a line
//! into words, tells built-in commands from programs, finds programs on the
//! search path and says what has to be done for each line.

pub mod action;
pub mod builtin;
pub mod command;
pub mod launch;
pub mod search;
pub mod shell;
pub mod status;
pub mod system;
pub mod text;
pub mod token;
