//! A verified interpreter for an eight-symbol tape language.
//!
//! A program is a sequence of bytes. Eight of them act on a tape of byte
//! cells (`>` `<` `+` `-` `.` `,` `[` `]`); every other byte is a comment.
//!
//! * [`tape`] says what a tape is and what each operation does to it.
//! * [`memory`] holds the tape in memory, in a bounded wrap-around form and
//!   in an unbounded form that grows in both directions.
//! * [`machine`] says what a step and a run of the machine do.
//! * [`engine`] holds the execution engine: one symbol per step, with loops
//!   resolved through a stack of open loop positions.
//! * [`programs`] proves what some small programs do.
//! * [`error`] holds the two ways in which a run can fail.
//! * [`trace`] renders the tape as text for diagnosis, and [`text`] holds
//!   the numerals and the padding that it and the errors are made of.
//!
//! The engine performs no input or output of its own. A step hands a byte to
//! its caller to be written, or asks its caller for a byte that was read.

pub mod engine;
pub mod error;
pub mod machine;
pub mod memory;
pub mod programs;
pub mod tape;
pub mod text;
pub mod trace;

pub use engine::interpret;
pub use engine::Interpreter;
pub use error::Error;
pub use machine::Action;
pub use machine::Event;
pub use memory::Memory;
pub use tape::Tape;
