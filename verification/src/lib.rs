//! media-daemon library: the verified core of the dashcam media daemon.
//!
//! Every function here is checked by Verus against its contract, except the
//! few `#[verifier::external_body]` wrappers that make a call into std or the
//! WebRTC voice activity detector, whose contracts are trusted.  The parts
//! of the daemon that talk to devices, sockets, files and threads live in the
//! companion application crate and call into this library for every decision.

pub mod encoder_common;
pub mod event_bus;
pub mod shm;
pub mod loop_writer;
pub mod capture;
pub mod encoder_gstreamer;
pub mod encoder;
pub mod encoder_mpp;
pub mod audio;
pub mod dispatch;
