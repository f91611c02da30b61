//! Events that are pushed to clients over their web sockets.

use vstd::prelude::*;

verus! {

/// A number of seconds: a double, by its bit pattern.
#[derive(Clone, Copy, Debug, PartialEq, Eq, Structural)]
pub struct Seconds {
    /// The bits of the IEEE 754 double.
    pub bits: u64,
}

/// Where playback stands: at `base`, or, while it is playing, as many nanoseconds later as have
/// gone by since then.
#[derive(Clone, Copy, Debug, PartialEq, Eq, Structural)]
pub struct PlaybackPosition {
    /// The last position that was set.
    pub base: Seconds,
    /// The nanoseconds that have gone by since, `None` while playback is paused.
    pub playing_nanos: Option<u64>,
}

/// A participant of a watch-together room, as clients see it.
#[derive(Debug)]
pub struct WtParticipant {
    pub user_id: i64,
    pub username: String,
    pub picture: Option<i64>,
    pub is_host: bool,
    pub is_buffering: bool,
    pub is_ready: bool,
    /// "dim" for users of the web client, "syncplay" for desktop Syncplay clients.
    pub client_type: String,
}

/// The kinds of event.
#[derive(Debug)]
pub enum PushEventType {
    /// A new media card has been added to the database.
    EventNewCard { lib_id: i64 },
    /// A card has been removed from the database.
    EventRemoveCard,
    /// A new library has been added to the database.
    EventNewLibrary,
    /// A library has been removed from the database.
    EventRemoveLibrary,
    /// A stream is ready to be streamed.
    EventStreamIsReady,
    /// Stats collected from the transcoder, by name.
    EventStreamStats(Vec<(String, String)>),
    /// A library is being scanned.
    EventStartedScanning,
    /// A library has finished scanning.
    EventStoppedScanning,
    /// The client is authenticated.
    EventAuthOk,
    /// The client's token is wrong or missing.
    EventAuthErr,
    /// A media file was matched; listeners drop it from a list or update its state.
    MediafileMatched { mediafile: i64, library_id: i64 },
    /// The state of a room.
    EventWatchTogetherRoomUpdate {
        room_code: String,
        media_file_id: i64,
        media_name: String,
        playback_state: String,
        playback_position: PlaybackPosition,
        server_time_ms: u64,
        participants: Vec<WtParticipant>,
    },
    /// A playback command: "play", "pause" or "seek".
    EventWatchTogetherSync {
        room_code: String,
        action: String,
        position: Seconds,
        server_time_ms: u64,
    },
    /// A chat message.
    EventWatchTogetherChat {
        room_code: String,
        user_id: i64,
        username: String,
        text: String,
        timestamp_ms: u64,
    },
    /// A room is gone.
    EventWatchTogetherRoomDestroyed { room_code: String, reason: String },
    /// A participant's buffering status.
    EventWatchTogetherBuffering {
        room_code: String,
        user_id: i64,
        username: String,
        is_buffering: bool,
    },
    /// A participant's ready status.
    EventWatchTogetherReady { room_code: String, user_id: i64, username: String, is_ready: bool },
    /// A room's control mode.
    EventWatchTogetherModeChanged { room_code: String, control_mode: String },
    /// A new notification.
    EventNewNotification {
        notification_id: i64,
        title: String,
        body: Option<String>,
        media_id: Option<i64>,
        poster_path: Option<String>,
        category: String,
    },
}

/// An event on its way to a client.
#[derive(Debug)]
pub struct Message {
    /// What this identifies depends on the event; -1 where nothing does.
    pub id: i64,
    pub event_type: PushEventType,
}

}
