//! The decision logic of the KonX desktop assistant: picking the on-screen
//! control a guidance step points at, shaping model requests and replies,
//! the server-first / local-key request flow, and the floating orb's corner
//! docking. The window system, the network and the clipboard stay outside.

pub mod text;
pub mod uia;
pub mod ai;
pub mod flow;
pub mod guide;
pub mod orb;
pub mod window;
pub mod screen;
