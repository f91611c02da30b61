//! The decision logic of a self-hosted media server: fragmented-MP4 patching, watch-together
//! rooms, file name parsing, metadata matching and transcoder command lines.

pub mod components;
pub mod direct_play;
pub mod events;
pub mod external;
pub mod filename;
pub mod patch;
pub mod paths;
pub mod profiles;
pub mod providers;
pub mod routes;
pub mod scanner;
pub mod session;
pub mod settings;
pub mod status;
pub mod streaming;
pub mod subtitles;
pub mod sync_engine;
pub mod syncplay_proto;
pub mod syncplay_server;
pub mod text;
pub mod torrent_numbers;
pub mod webhook;
pub mod words;
