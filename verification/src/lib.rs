//! Playback core for SPC track snapshots: the sample ring buffer, the
//! end-of-track clock, output-format negotiation and the track summary.
pub mod clock;
pub mod driver;
pub mod player;
pub mod ring_buffer;
pub mod snapshot;
pub mod text;
pub mod track_info;
