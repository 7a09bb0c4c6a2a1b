//! A fixed-capacity first-in-first-out queue over a circular store.
//!
//! [`RingBuffer`] keeps its elements in one preallocated vector and two
//! cursors that advance modulo the vector's length. Its behaviour is stated
//! against [`fifo::Fifo`], a plain sequence with a bound, and the properties
//! that follow from that description are proved in [`laws`].

pub mod fifo;
pub mod laws;
pub mod ring;

pub use crate::ring::RingBuffer;
