//! Core of the yex scripting runtime: marshaling between VM values and the
//! flat memory of native calls, and incremental linking of compiled units
//! into a persistent session.

pub mod ffi;
pub mod link;
pub mod repl;
pub mod session;
pub mod value;
