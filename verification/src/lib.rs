//! Editing numeric parameters of a running process through pointer chains.
//!
//! The library decides; its caller touches the outside world. Every access to
//! the target's memory, to the keyboard and to floating-point arithmetic is a
//! [`protocol::Request`] that the caller carries out and answers with a
//! [`protocol::Reply`]. A number travels through the library as the bit pattern
//! of its IEEE-754 single-precision encoding.
//!
//! - [`codec`]: the little-endian encoding of pointers and scalars.
//! - [`resolver`]: the walk along a pointer chain.
//! - [`api`]: one read or write of a scalar at the end of a chain.
//! - [`keys`]: the recognised keys and the detection of a key press.
//! - [`input_handler`]: the parameter registry and the editor.
//! - [`memory`] and [`tick`]: what the requests of an access and of a whole tick
//!   amount to when they are carried out faithfully.
//! - [`locks`]: why a locked parameter stays at its value.

pub mod api;
pub mod codec;
pub mod input_handler;
pub mod keys;
pub mod locks;
pub mod memory;
pub mod protocol;
pub mod resolver;
pub mod text;
pub mod tick;
