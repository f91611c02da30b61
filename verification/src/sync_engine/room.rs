//! Rooms and their participants.

use vstd::prelude::*;

use crate::events::{PlaybackPosition, Seconds, WtParticipant};

verus! {

/// The number of characters of a room code.
pub const ROOM_CODE_LEN: usize = 6;

/// A room keeps this many chat messages.
pub const MAX_CHAT_MESSAGES: usize = 200;

/// Who may control playback.
#[derive(Clone, Copy, Debug, PartialEq, Eq, Structural)]
pub enum ControlMode {
    HostOnly,
    Egalitarian,
}

impl ControlMode {
    pub open spec fn name(self) -> Seq<char> {
        match self {
            ControlMode::HostOnly => "host_only"@,
            ControlMode::Egalitarian => "egalitarian"@,
        }
    }

    pub fn as_str(&self) -> (r: &'static str)
        ensures
            r@ == self.name(),
    {
        match self {
            ControlMode::HostOnly => "host_only",
            ControlMode::Egalitarian => "egalitarian",
        }
    }
}

#[derive(Clone, Copy, Debug, PartialEq, Eq, Structural)]
pub enum PlaybackState {
    Playing,
    Paused,
}

impl PlaybackState {
    pub open spec fn name(self) -> Seq<char> {
        match self {
            PlaybackState::Playing => "playing"@,
            PlaybackState::Paused => "paused"@,
        }
    }

    pub fn as_str(&self) -> (r: &'static str)
        ensures
            r@ == self.name(),
    {
        match self {
            PlaybackState::Playing => "playing",
            PlaybackState::Paused => "paused",
        }
    }
}

/// What a participant is connected with.
#[derive(Clone, Copy, Debug, PartialEq, Eq, Structural)]
pub enum ParticipantKind {
    DimUser { user_id: i64, picture: Option<i64> },
    SyncplayClient { conn_id: u64 },
}

/// Identifies a participant, whether a web user or a Syncplay client.
#[derive(Clone, Copy, Debug, PartialEq, Eq, Structural)]
pub enum ParticipantId {
    DimUser(i64),
    Syncplay(u64),
}

/// The file that a Syncplay client has open.
#[derive(Debug)]
pub struct ParticipantFile {
    pub name: String,
    pub duration: Seconds,
    pub size: u64,
    pub dim_file_id: i64,
}

impl ParticipantFile {
    pub fn copy(&self) -> (r: Self)
        ensures
            r == *self,
    {
        ParticipantFile {
            name: self.name.clone(),
            duration: self.duration,
            size: self.size,
            dim_file_id: self.dim_file_id,
        }
    }
}

#[derive(Debug)]
pub struct SyncParticipant {
    pub id: ParticipantId,
    pub display_name: String,
    pub kind: ParticipantKind,
    pub is_host: bool,
    pub is_ready: bool,
    pub is_buffering: bool,
    pub latency_ms: u32,
    pub file: Option<ParticipantFile>,
}

/// The user id by which events speak of a Syncplay connection: -1 for the first connection, and so on
/// downwards. Beyond the connections for which there is a negative number, it goes on from the top.
pub open spec fn synthetic_id(conn_id: u64) -> i64 {
    if conn_id <= 0x7fff_ffff_ffff_ffff {
        (-1 - conn_id) as i64
    } else {
        (u64::MAX - conn_id) as i64
    }
}

/// Computes the user id by which events speak of a Syncplay connection.
pub fn synthetic_user_id(conn_id: u64) -> (r: i64)
    ensures
        r == synthetic_id(conn_id),
        conn_id <= i64::MAX ==> r < 0,
{
    if conn_id <= 0x7fff_ffff_ffff_ffff {
        -1 - conn_id as i64
    } else {
        (u64::MAX - conn_id) as i64
    }
}

/// The user id of a Syncplay connection is negative, so that it is not the id of a web user, for all of
/// the first 2^63 connections; and different connections have different ones.
pub proof fn law_connections_have_ids_of_their_own(a: u64, b: u64)
    ensures
        a <= i64::MAX ==> synthetic_id(a) < 0,
        a != b ==> synthetic_id(a) != synthetic_id(b),
{
}

/// The user id in events about a participant of this kind.
pub open spec fn user_id_of(kind: ParticipantKind) -> i64 {
    match kind {
        ParticipantKind::DimUser { user_id, picture } => user_id,
        ParticipantKind::SyncplayClient { conn_id } => synthetic_id(conn_id),
    }
}

/// The profile picture of a participant of this kind.
pub open spec fn picture_of(kind: ParticipantKind) -> Option<i64> {
    match kind {
        ParticipantKind::DimUser { user_id, picture } => picture,
        ParticipantKind::SyncplayClient { conn_id } => None,
    }
}

/// "dim" or "syncplay".
pub open spec fn client_type_of(kind: ParticipantKind) -> Seq<char> {
    match kind {
        ParticipantKind::DimUser { user_id, picture } => "dim"@,
        ParticipantKind::SyncplayClient { conn_id } => "syncplay"@,
    }
}

/// `w` shows the participant `p`.
pub open spec fn shows(w: WtParticipant, p: SyncParticipant) -> bool {
    &&& w.user_id == user_id_of(p.kind)
    &&& w.username@ == p.display_name@
    &&& w.picture == picture_of(p.kind)
    &&& w.is_host == p.is_host
    &&& w.is_buffering == p.is_buffering
    &&& w.is_ready == p.is_ready
    &&& w.client_type@ == client_type_of(p.kind)
}

/// `ws` shows the participants `ps`, in their order.
pub open spec fn shows_all(ws: Seq<WtParticipant>, ps: Seq<SyncParticipant>) -> bool {
    ws.len() == ps.len() && forall|i: int| 0 <= i < ps.len() ==> shows(#[trigger] ws[i], ps[i])
}

impl SyncParticipant {
    /// The user id in events about this participant.
    pub fn user_id(&self) -> (r: i64)
        ensures
            r == user_id_of(self.kind),
            self.kind matches ParticipantKind::SyncplayClient { conn_id } && conn_id <= i64::MAX ==> r
                < 0,
    {
        match self.kind {
            ParticipantKind::DimUser { user_id, .. } => user_id,
            ParticipantKind::SyncplayClient { conn_id } => synthetic_user_id(conn_id),
        }
    }

    pub fn picture(&self) -> (r: Option<i64>)
        ensures
            r == picture_of(self.kind),
    {
        match self.kind {
            ParticipantKind::DimUser { picture, .. } => picture,
            ParticipantKind::SyncplayClient { .. } => None,
        }
    }

    pub fn client_type(&self) -> (r: &'static str)
        ensures
            r@ == client_type_of(self.kind),
    {
        match self.kind {
            ParticipantKind::DimUser { .. } => "dim",
            ParticipantKind::SyncplayClient { .. } => "syncplay",
        }
    }

    /// The participant as clients see it.
    pub fn to_wt_participant(&self) -> (r: WtParticipant)
        ensures
            shows(r, *self),
    {
        WtParticipant {
            user_id: self.user_id(),
            username: self.display_name.clone(),
            picture: self.picture(),
            is_host: self.is_host,
            is_buffering: self.is_buffering,
            is_ready: self.is_ready,
            client_type: self.client_type().to_owned(),
        }
    }
}

#[derive(Debug)]
pub struct ChatMessage {
    pub user_id: i64,
    pub username: String,
    pub text: String,
    pub timestamp_ms: u64,
}

/// The time at which an operation takes place.
#[derive(Clone, Copy, Debug, PartialEq, Eq, Structural)]
pub struct Clock {
    /// Nanoseconds on a clock that never goes back.
    pub monotonic_nanos: u64,
    /// Milliseconds since the Unix epoch.
    pub unix_ms: u64,
}

#[derive(Debug)]
pub struct SyncRoom {
    pub code: String,
    pub name: String,
    pub password: Option<String>,
    pub control_mode: ControlMode,
    pub media_file_id: Option<i64>,
    pub media_id: Option<i64>,
    pub media_name: String,
    pub playback_state: PlaybackState,
    pub playback_position: Seconds,
    /// When the position was last set, on the monotonic clock.
    pub last_position_update: u64,
    /// Until when the host's reports are ignored, on the monotonic clock.
    pub host_report_holdoff_until: Option<u64>,
    pub participants: Vec<SyncParticipant>,
    pub chat_messages: Vec<ChatMessage>,
}

/// The nanoseconds from `then` to `now`, none if `now` is the earlier.
pub open spec fn elapsed(then: u64, now: u64) -> u64 {
    if now >= then {
        (now - then) as u64
    } else {
        0
    }
}

/// The position of the room at a time.
pub open spec fn position_at(room: SyncRoom, clock: Clock) -> PlaybackPosition {
    PlaybackPosition {
        base: room.playback_position,
        playing_nanos: match room.playback_state {
            PlaybackState::Playing => Some(
                elapsed(room.last_position_update, clock.monotonic_nanos),
            ),
            PlaybackState::Paused => None,
        },
    }
}

/// Where the participant `id` stands in the list.
pub open spec fn seat(ps: Seq<SyncParticipant>, id: ParticipantId) -> Option<int>
    decreases ps.len(),
{
    if ps.len() == 0 {
        None
    } else {
        match seat(ps.drop_last(), id) {
            Some(i) => Some(i),
            None => if ps.last().id == id {
                Some(ps.len() - 1)
            } else {
                None
            },
        }
    }
}

/// Where the host stands in the list.
pub open spec fn host_seat(ps: Seq<SyncParticipant>) -> Option<int>
    decreases ps.len(),
{
    if ps.len() == 0 {
        None
    } else {
        match host_seat(ps.drop_last()) {
            Some(i) => Some(i),
            None => if ps.last().is_host {
                Some(ps.len() - 1)
            } else {
                None
            },
        }
    }
}

/// The participant `id` is in the room.
pub open spec fn is_member(room: SyncRoom, id: ParticipantId) -> bool {
    seat(room.participants@, id) is Some
}

/// The host of the room.
pub open spec fn host_of(room: SyncRoom) -> Option<ParticipantId> {
    match host_seat(room.participants@) {
        Some(i) => Some(room.participants@[i].id),
        None => None,
    }
}

/// The participant `id` may control playback.
pub open spec fn may_control(room: SyncRoom, id: ParticipantId) -> bool {
    match room.control_mode {
        ControlMode::HostOnly => host_of(room) == Some(id),
        ControlMode::Egalitarian => is_member(room, id),
    }
}

/// What holds of every room: somebody is in it, nobody twice, no display name twice, somebody is
/// host, and the chat is bounded.
pub open spec fn room_wf(room: SyncRoom) -> bool {
    let ps = room.participants@;
    &&& ps.len() > 0
    &&& forall|i: int, j: int| 0 <= i < j < ps.len() ==> (#[trigger] ps[i]).id != (#[trigger] ps[j]).id
    &&& forall|i: int, j: int|
        0 <= i < j < ps.len() ==> (#[trigger] ps[i]).display_name@ != (
        #[trigger] ps[j]).display_name@
    &&& host_seat(ps) is Some
    &&& room.chat_messages@.len() <= MAX_CHAT_MESSAGES
}

/// What `seat` finds is a participant with that id, and the first.
pub proof fn lemma_seat(ps: Seq<SyncParticipant>, id: ParticipantId)
    ensures
        seat(ps, id) matches Some(i) ==> 0 <= i < ps.len() && ps[i].id == id && forall|j: int|
            0 <= j < i ==> (#[trigger] ps[j]).id != id,
        seat(ps, id) is None ==> forall|j: int| 0 <= j < ps.len() ==> (#[trigger] ps[j]).id != id,
    decreases ps.len(),
{
    if ps.len() > 0 {
        lemma_seat(ps.drop_last(), id);
        assert forall|j: int| 0 <= j < ps.len() - 1 implies #[trigger] ps[j]
            == ps.drop_last()[j] by {}
    }
}

/// What `host_seat` finds is the first host.
pub proof fn lemma_host_seat(ps: Seq<SyncParticipant>)
    ensures
        host_seat(ps) matches Some(i) ==> 0 <= i < ps.len() && ps[i].is_host && forall|j: int|
            0 <= j < i ==> !(#[trigger] ps[j]).is_host,
        host_seat(ps) is None ==> forall|j: int| 0 <= j < ps.len() ==> !(#[trigger] ps[j]).is_host,
    decreases ps.len(),
{
    if ps.len() > 0 {
        lemma_host_seat(ps.drop_last());
        assert forall|j: int| 0 <= j < ps.len() - 1 implies #[trigger] ps[j]
            == ps.drop_last()[j] by {}
    }
}

/// Finds a participant's seat.
pub fn find_seat(ps: &Vec<SyncParticipant>, id: ParticipantId) -> (r: Option<usize>)
    ensures
        r is Some <==> seat(ps@, id) is Some,
        r matches Some(i) ==> Some(i as int) == seat(ps@, id) && i < ps@.len(),
{
    proof {
        lemma_seat(ps@, id);
    }
    let mut i: usize = 0;
    while i < ps.len()
        invariant
            0 <= i <= ps@.len(),
            forall|j: int| 0 <= j < i ==> (#[trigger] ps@[j]).id != id,
            seat(ps@, id) matches Some(k) ==> 0 <= k < ps@.len() && ps@[k].id == id && forall|j: int|
                0 <= j < k ==> (#[trigger] ps@[j]).id != id,
            seat(ps@, id) is None ==> forall|j: int|
                0 <= j < ps@.len() ==> (#[trigger] ps@[j]).id != id,
        decreases ps@.len() - i,
    {
        if ps[i].id == id {
            return Some(i);
        }
        i = i + 1;
    }
    None
}

/// Finds the host's seat.
pub fn find_host(ps: &Vec<SyncParticipant>) -> (r: Option<usize>)
    ensures
        r is Some <==> host_seat(ps@) is Some,
        r matches Some(i) ==> Some(i as int) == host_seat(ps@) && i < ps@.len(),
{
    proof {
        lemma_host_seat(ps@);
    }
    let mut i: usize = 0;
    while i < ps.len()
        invariant
            0 <= i <= ps@.len(),
            forall|j: int| 0 <= j < i ==> !(#[trigger] ps@[j]).is_host,
            host_seat(ps@) matches Some(k) ==> 0 <= k < ps@.len() && ps@[k].is_host && forall|j: int|
                0 <= j < k ==> !(#[trigger] ps@[j]).is_host,
            host_seat(ps@) is None ==> forall|j: int|
                0 <= j < ps@.len() ==> !(#[trigger] ps@[j]).is_host,
        decreases ps@.len() - i,
    {
        if ps[i].is_host {
            return Some(i);
        }
        i = i + 1;
    }
    None
}

/// What the REST endpoints say of a room.
#[derive(Debug)]
pub struct RoomInfo {
    pub code: String,
    pub media_file_id: Option<i64>,
    pub media_id: Option<i64>,
    pub media_name: String,
    pub host_user_id: i64,
    pub playback_state: String,
    pub playback_position: PlaybackPosition,
    pub server_time_ms: u64,
    pub participants: Vec<WtParticipant>,
    pub control_mode: String,
}

/// The user id of the host, -1 if there is none.
pub open spec fn host_user_id_of(room: SyncRoom) -> i64 {
    match host_seat(room.participants@) {
        Some(i) => user_id_of(room.participants@[i].kind),
        None => (-1) as i64,
    }
}

/// `info` describes the room at a time.
pub open spec fn describes(info: RoomInfo, room: SyncRoom, clock: Clock) -> bool {
    &&& info.code@ == room.code@
    &&& info.media_file_id == room.media_file_id
    &&& info.media_id == room.media_id
    &&& info.media_name@ == room.media_name@
    &&& info.host_user_id == host_user_id_of(room)
    &&& info.playback_state@ == room.playback_state.name()
    &&& info.playback_position == position_at(room, clock)
    &&& info.server_time_ms == clock.unix_ms
    &&& shows_all(info.participants@, room.participants@)
    &&& info.control_mode@ == room.control_mode.name()
}

/// A room's authoritative playback state.
#[derive(Clone, Copy, Debug, PartialEq, Eq, Structural)]
pub struct RoomPlaybackSnapshot {
    pub position: PlaybackPosition,
    pub paused: bool,
}

/// The connection ids of the Syncplay clients among the participants.
pub open spec fn syncplay_conns_of(ps: Seq<SyncParticipant>) -> Seq<u64>
    decreases ps.len(),
{
    if ps.len() == 0 {
        Seq::empty()
    } else {
        let before = syncplay_conns_of(ps.drop_last());
        match ps.last().kind {
            ParticipantKind::SyncplayClient { conn_id } => before.push(conn_id),
            _ => before,
        }
    }
}

impl SyncRoom {
    /// The position at a time.
    pub fn current_position(&self, clock: Clock) -> (r: PlaybackPosition)
        ensures
            r == position_at(*self, clock),
    {
        let playing_nanos = match self.playback_state {
            PlaybackState::Playing => {
                if clock.monotonic_nanos >= self.last_position_update {
                    Some(clock.monotonic_nanos - self.last_position_update)
                } else {
                    Some(0)
                }
            },
            PlaybackState::Paused => None,
        };
        PlaybackPosition { base: self.playback_position, playing_nanos }
    }

    /// The connection ids of the room's Syncplay clients.
    pub fn syncplay_conn_ids(&self) -> (r: Vec<u64>)
        ensures
            r@ == syncplay_conns_of(self.participants@),
    {
        let mut r: Vec<u64> = Vec::new();
        let mut i: usize = 0;
        assert(self.participants@.subrange(0, 0) =~= Seq::empty());
        while i < self.participants.len()
            invariant
                0 <= i <= self.participants@.len(),
                r@ == syncplay_conns_of(self.participants@.subrange(0, i as int)),
            decreases self.participants@.len() - i,
        {
            proof {
                let next = self.participants@.subrange(0, i + 1);
                assert(next.drop_last() =~= self.participants@.subrange(0, i as int));
            }
            if let ParticipantKind::SyncplayClient { conn_id } = self.participants[i].kind {
                r.push(conn_id);
            }
            i = i + 1;
        }
        assert(self.participants@.subrange(0, i as int) =~= self.participants@);
        r
    }

    /// The participants as clients see them.
    pub fn to_wt_participants(&self) -> (r: Vec<WtParticipant>)
        ensures
            shows_all(r@, self.participants@),
    {
        let mut r: Vec<WtParticipant> = Vec::new();
        let mut i: usize = 0;
        while i < self.participants.len()
            invariant
                0 <= i <= self.participants@.len(),
                r@.len() == i,
                forall|j: int| 0 <= j < i ==> shows(#[trigger] r@[j], self.participants@[j]),
            decreases self.participants@.len() - i,
        {
            r.push(self.participants[i].to_wt_participant());
            i = i + 1;
        }
        r
    }

    /// The host.
    pub fn host_id(&self) -> (r: Option<ParticipantId>)
        ensures
            r == host_of(*self),
    {
        match find_host(&self.participants) {
            Some(i) => Some(self.participants[i].id),
            None => None,
        }
    }

    /// Whether the participant may control playback.
    pub fn can_control(&self, participant_id: ParticipantId) -> (r: bool)
        ensures
            r == may_control(*self, participant_id),
    {
        match self.control_mode {
            ControlMode::HostOnly => match self.host_id() {
                Some(id) => id == participant_id,
                None => false,
            },
            ControlMode::Egalitarian => find_seat(&self.participants, participant_id).is_some(),
        }
    }

    /// The display name of a participant.
    pub fn participant_name(&self, participant_id: ParticipantId) -> (r: Option<String>)
        ensures
            r is Some <==> is_member(*self, participant_id),
            r matches Some(name) ==> name == self.participants@[seat(
                self.participants@,
                participant_id,
            )->0].display_name,
    {
        match find_seat(&self.participants, participant_id) {
            Some(i) => Some(self.participants[i].display_name.clone()),
            None => None,
        }
    }

    /// The room as the REST endpoints describe it.
    pub fn to_info(&self, clock: Clock) -> (r: RoomInfo)
        ensures
            describes(r, *self, clock),
    {
        let host_user_id: i64 = match find_host(&self.participants) {
            Some(i) => self.participants[i].user_id(),
            None => -1,
        };
        RoomInfo {
            code: self.code.clone(),
            media_file_id: self.media_file_id,
            media_id: self.media_id,
            media_name: self.media_name.clone(),
            host_user_id,
            playback_state: self.playback_state.as_str().to_owned(),
            playback_position: self.current_position(clock),
            server_time_ms: clock.unix_ms,
            participants: self.to_wt_participants(),
            control_mode: self.control_mode.as_str().to_owned(),
        }
    }

    /// The room's authoritative playback state.
    pub fn snapshot(&self, clock: Clock) -> (r: RoomPlaybackSnapshot)
        ensures
            r.position == position_at(*self, clock),
            r.paused == (self.playback_state == PlaybackState::Paused),
    {
        RoomPlaybackSnapshot {
            position: self.current_position(clock),
            paused: self.playback_state == PlaybackState::Paused,
        }
    }
}

}
