//! An interactive role-play shell: completion hints, command dispatch,
//! reply assembly and the interviews that build a scenario document.

pub mod chat;
pub mod text;
pub mod hint;
pub mod interview;
