//! A small interactive shell core: alias storage with flat-file persistence,
//! whitespace tokenization, built-in command routing, and the message
//! formatting the shell prints. The surrounding binary performs the actual
//! I/O; everything here is pure logic over strings.
pub mod alias;
pub mod facts;
pub mod messages;
pub mod prompt;
pub mod router;
pub mod session;
pub mod text;
