//! A reactive-systems substrate for discrete-time control loops: a typed
//! algebra of Mealy-style state machines with composition operators, a
//! polynomial / transfer-function layer over an abstract coefficient ring,
//! and a lazy time-indexed signal abstraction bridging the two.

pub mod coef;
pub mod sm;
pub mod combinators;
pub mod machines;
pub mod poly;
pub mod sf;
pub mod sig;
pub mod opt;

pub use coef::Coef;
