//! Transcoding profiles: when one applies, and the arguments that it hands to ffmpeg.

pub mod amf;
pub mod args;
pub mod context;
pub mod cuda;
pub mod devices;
pub mod h265;
pub mod laws;
pub mod qsv;
pub mod registry;
pub mod select;
pub mod v4l2;
pub mod vaapi;
pub mod vp9;
