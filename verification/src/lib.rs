//! A media source that takes an encoded bitstream from a helper process over a local socket and
//! turns it into RTP packets.
//!
//! - `frame` is the framing of packets on the socket, on top of `le`.
//! - `h264_util` finds the profile that an H.264 bitstream announces.
//! - `rtp_clock` turns presentation timestamps into steps of the RTP clock; `rtp` cuts frames into
//!   RTP packets, and `av1_obu` tells which AV1 frames can be cut.
//! - `run` is the loop that connects, reads and connects again, as a machine that is told what
//!   happened and answers what to do; `run_laws` states what holds over any run of it.
//! - `ipc_encoded_source` is the handle of a source, with its configuration in `source_config` and
//!   its state in `source_state`; `source_laws` states what holds over any calls of it.
//!
//! What the calls do is also told as laws, from their arguments and results alone: of the framing in
//! `frame_laws`, of the scan in `h264_laws`, of the AV1 sizes in `av1_laws`, of one step in
//! `step_laws`, of the packets it sends in `packet_laws`, and of the handle in `handle_laws`.
//!
//! Sockets, tasks and channels are the caller's.
pub mod av1_laws;
pub mod av1_obu;
pub mod digits;
pub mod frame;
pub mod frame_laws;
pub mod h264_laws;
pub mod h264_util;
pub mod handle_laws;
pub mod ipc_encoded_source;
pub mod le;
pub mod packet_laws;
pub mod rtp;
pub mod rtp_clock;
pub mod run;
pub mod run_laws;
pub mod source_config;
pub mod source_laws;
pub mod source_state;
pub mod step_laws;
pub mod text;
