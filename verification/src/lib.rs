//! The logic of a server that streams video sources to browsers over WebRTC.
//!
//! The modules compute what the server does and say so in contracts: the launch text of
//! the media pipeline, the steps that open and close a viewer's session, the signaling
//! texts, the viewer page, the HTTP routes, and what to do on each event of a WebSocket.
//! Performing those steps is left to the program that uses the library.
pub mod config;
pub mod json;
pub mod pipeline;
pub mod session;
pub mod signaling;
pub mod socket;
pub mod text;
pub mod viewer;
pub mod web;
