//! Computational core of a multi-channel CNC controller: the G-code block
//! lexer, the modal interpreter, tool-table bookkeeping, the channel
//! scheduler and the homing sequencer.

pub mod lexer;
pub mod number;
pub mod words;
pub mod modal;
pub mod tools;
pub mod channel;
pub mod machine;
pub mod program;
