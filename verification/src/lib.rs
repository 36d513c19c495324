//! Supervision of video-encoding jobs for captured game recordings: the
//! command-line argument model, the telemetry parser, the job supervisor and
//! lifecycle, sets of non-overlapping time intervals, and validated encoder
//! parameters.

pub mod argument;
pub mod encoder;
pub mod interval;
pub mod interval_order;
pub mod interval_set;
pub mod lifecycle;
pub mod params;
pub mod pattern;
pub mod progress;
pub mod recording;
pub mod stats;
pub mod supervisor;
pub mod tags;
pub mod text;
pub mod time;
pub mod zones;
