//! Verified core of a peer-to-peer voice, video and file-sharing application:
//! wire types, frame fragmentation and reassembly, jitter buffering,
//! congestion control, media negotiation, the channel peer table, the media
//! pipelines' send and receive decisions, frame conversions, file chunking
//! and swarm download planning, settings and navigation.

mod clock;
pub mod protocol;
pub mod fragmentation;
pub mod jitter_buffer;
pub mod negotiation;
pub mod media_transport;
pub mod control;
pub mod congestion;
pub mod net;
pub mod media;
pub mod pipeline;
pub mod capture;
pub mod codec;
pub mod files;
pub mod settings;
pub mod timing;
pub mod sim;
pub mod shell;
pub mod app_audio;
