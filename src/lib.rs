//! Typing-practice session engine: the session state machine, the
//! terminal cursor model, running statistics and the rendering plan that a
//! terminal front end carries out.
pub mod cursor;
pub mod quote;
pub mod render;
pub mod stats;
pub mod typing;
