//! A small line-oriented scripting language: a typed variable store, a
//! statement dispatcher, a three-token condition evaluator and a loop
//! controller that replays a captured body.
//!
//! Numbers are held as IEEE-754 binary64 bit patterns together with their
//! decimal text. Reading a decimal literal happens outside the library: the
//! readings come in through a [`literal::Literals`] table. Arithmetic is
//! evaluated by meval (see [`arith`]).
pub mod arith;
pub mod interp;
pub mod laws;
pub mod literal;
pub mod looping;
pub mod number;
pub mod text;
pub mod value;

pub use interp::{ConditionError, Effect, Fault, Interpreter, Statement};
pub use literal::Literals;
pub use looping::{Capture, LoopAction, Replay};
pub use number::{CmpOp, Num};
pub use value::Value;
