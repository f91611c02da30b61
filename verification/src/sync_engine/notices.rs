//! Notifications: what is said, and to whom.

use vstd::prelude::*;

use crate::events::{Message, PlaybackPosition, PushEventType, Seconds};
use crate::sync_engine::room::{
    position_at, seat, shows_all, user_id_of, Clock, ParticipantFile, ParticipantId,
    ParticipantKind, PlaybackState, SyncParticipant, SyncRoom,
};

verus! {

/// The address of a web socket's remote end.
#[derive(Clone, Copy, Debug, PartialEq, Eq, Structural)]
pub struct SocketAddr {
    /// Whether the address is one of IP version 6.
    pub v6: bool,
    /// The address bits; those of version 4 are the low 32.
    pub ip: u128,
    pub port: u16,
    pub flowinfo: u32,
    pub scope_id: u32,
}

/// One socket of a web user.
#[derive(Clone, Copy, Debug, PartialEq, Eq, Structural)]
pub struct UserAddr {
    pub user_id: i64,
    pub addr: SocketAddr,
}

/// What happened to a user, in a Syncplay user event.
#[derive(Clone, Copy, Debug, PartialEq, Eq, Structural)]
pub enum UserEvent {
    Joined,
    Left,
}

/// One user in a Syncplay user list.
#[derive(Debug)]
pub struct ListedUser {
    pub name: String,
    pub position: PlaybackPosition,
    pub file: Option<ParticipantFile>,
    pub controller: bool,
    pub is_ready: bool,
}

/// A message of the Syncplay protocol.
#[derive(Debug)]
pub enum SyncplayMessage {
    /// The room's authoritative state. With `do_seek` clients jump to the position instead of
    /// slewing towards it.
    State {
        position: PlaybackPosition,
        paused: bool,
        do_seek: bool,
        set_by: Option<String>,
        server_time_ms: u64,
    },
    Chat { username: String, message: String },
    /// A user joined, left, or opened another file.
    User {
        username: String,
        room_name: String,
        event: Option<UserEvent>,
        file: Option<ParticipantFile>,
    },
    List { room_name: String, users: Vec<ListedUser> },
    Ready { username: String, is_ready: bool },
}

/// A message for the web sockets at `targets`.
#[derive(Debug)]
pub struct WsBroadcast {
    pub targets: Vec<SocketAddr>,
    pub message: Message,
}

/// A message for the Syncplay connections `conn_ids`.
#[derive(Debug)]
pub struct SyncplayBroadcast {
    pub conn_ids: Vec<u64>,
    pub message: SyncplayMessage,
}

#[derive(Debug)]
pub enum SyncNotification {
    WebSocket(WsBroadcast),
    Syncplay(SyncplayBroadcast),
}

/// The sockets of a user, in the order in which they were registered.
pub open spec fn addrs_of(addrs: Seq<UserAddr>, user_id: i64) -> Seq<SocketAddr>
    decreases addrs.len(),
{
    if addrs.len() == 0 {
        Seq::empty()
    } else {
        let before = addrs_of(addrs.drop_last(), user_id);
        if addrs.last().user_id == user_id {
            before.push(addrs.last().addr)
        } else {
            before
        }
    }
}

/// Every socket of every web user among the participants, but for the excluded one.
pub open spec fn ws_targets(
    addrs: Seq<UserAddr>,
    ps: Seq<SyncParticipant>,
    exclude: Option<ParticipantId>,
) -> Seq<SocketAddr>
    decreases ps.len(),
{
    if ps.len() == 0 {
        Seq::empty()
    } else {
        let before = ws_targets(addrs, ps.drop_last(), exclude);
        if ps.last().kind is DimUser && exclude != Some(ps.last().id) {
            before + addrs_of(addrs, user_id_of(ps.last().kind))
        } else {
            before
        }
    }
}

/// The Syncplay connections among the participants, but for the excluded one.
pub open spec fn sp_targets(ps: Seq<SyncParticipant>, exclude: Option<ParticipantId>) -> Seq<u64>
    decreases ps.len(),
{
    if ps.len() == 0 {
        Seq::empty()
    } else {
        let before = sp_targets(ps.drop_last(), exclude);
        match ps.last().kind {
            ParticipantKind::SyncplayClient { conn_id } => if exclude != Some(ps.last().id) {
                before.push(conn_id)
            } else {
                before
            },
            _ => before,
        }
    }
}

/// How many notifications it takes to tell `n` targets: none where there are no targets.
pub open spec fn notices_for(n: nat) -> int {
    if n == 0 {
        0
    } else {
        1
    }
}

/// The notification tells exactly the sockets `targets` of an event with `ok`.
pub open spec fn tells_ws(
    n: SyncNotification,
    targets: Seq<SocketAddr>,
    ok: spec_fn(PushEventType) -> bool,
) -> bool {
    match n {
        SyncNotification::WebSocket(b) => b.targets@ == targets && b.message.id == -1 && ok(
            b.message.event_type,
        ),
        SyncNotification::Syncplay(_) => false,
    }
}

/// The notification tells exactly the connections `conns` of a message with `ok`.
pub open spec fn tells_sp(
    n: SyncNotification,
    conns: Seq<u64>,
    ok: spec_fn(SyncplayMessage) -> bool,
) -> bool {
    match n {
        SyncNotification::WebSocket(_) => false,
        SyncNotification::Syncplay(b) => b.conn_ids@ == conns && ok(b.message),
    }
}

/// The notifications are one for the sockets `targets`, or none where there are none.
pub open spec fn only_ws(
    ns: Seq<SyncNotification>,
    targets: Seq<SocketAddr>,
    ok: spec_fn(PushEventType) -> bool,
) -> bool {
    ns.len() == notices_for(targets.len()) && (targets.len() > 0 ==> tells_ws(ns[0], targets, ok))
}

/// The notifications are one for the connections `conns`, or none where there are none.
pub open spec fn only_sp(
    ns: Seq<SyncNotification>,
    conns: Seq<u64>,
    ok: spec_fn(SyncplayMessage) -> bool,
) -> bool {
    ns.len() == notices_for(conns.len()) && (conns.len() > 0 ==> tells_sp(ns[0], conns, ok))
}

/// First the notification for the sockets, then that for the connections.
pub open spec fn ws_then_sp(
    ns: Seq<SyncNotification>,
    targets: Seq<SocketAddr>,
    ws_ok: spec_fn(PushEventType) -> bool,
    conns: Seq<u64>,
    sp_ok: spec_fn(SyncplayMessage) -> bool,
) -> bool {
    let k = notices_for(targets.len());
    &&& k <= ns.len()
    &&& only_ws(ns.subrange(0, k), targets, ws_ok)
    &&& only_sp(ns.subrange(k, ns.len() as int), conns, sp_ok)
}

/// First the notification for the connections, then that for the sockets.
pub open spec fn sp_then_ws(
    ns: Seq<SyncNotification>,
    conns: Seq<u64>,
    sp_ok: spec_fn(SyncplayMessage) -> bool,
    targets: Seq<SocketAddr>,
    ws_ok: spec_fn(PushEventType) -> bool,
) -> bool {
    let k = notices_for(conns.len());
    &&& k <= ns.len()
    &&& only_sp(ns.subrange(0, k), conns, sp_ok)
    &&& only_ws(ns.subrange(k, ns.len() as int), targets, ws_ok)
}

/// The event is an update on the room at a time.
pub open spec fn is_room_update(e: PushEventType, room: SyncRoom, clock: Clock) -> bool {
    match e {
        PushEventType::EventWatchTogetherRoomUpdate {
            room_code,
            media_file_id,
            media_name,
            playback_state,
            playback_position,
            server_time_ms,
            participants,
        } => {
            &&& room_code@ == room.code@
            &&& media_file_id == (if room.media_file_id is Some {
                room.media_file_id->0
            } else {
                0
            })
            &&& media_name@ == room.media_name@
            &&& playback_state@ == room.playback_state.name()
            &&& playback_position == position_at(room, clock)
            &&& server_time_ms == clock.unix_ms
            &&& shows_all(participants@, room.participants@)
        },
        _ => false,
    }
}

/// The event is a playback command.
pub open spec fn is_sync(
    e: PushEventType,
    code: Seq<char>,
    act: Seq<char>,
    pos: Seconds,
    clock: Clock,
) -> bool {
    match e {
        PushEventType::EventWatchTogetherSync { room_code, action, position, server_time_ms } => {
            room_code@ == code && action@ == act && position == pos && server_time_ms
                == clock.unix_ms
        },
        _ => false,
    }
}

/// The message is the room's state at a time.
pub open spec fn is_state(
    m: SyncplayMessage,
    room: SyncRoom,
    seek: bool,
    by: Option<Seq<char>>,
    clock: Clock,
) -> bool {
    match m {
        SyncplayMessage::State { position, paused, do_seek, set_by, server_time_ms } => {
            &&& position == position_at(room, clock)
            &&& paused == (room.playback_state == PlaybackState::Paused)
            &&& do_seek == seek
            &&& (set_by is Some) == (by is Some)
            &&& set_by is Some ==> set_by->0@ == by->0
            &&& server_time_ms == clock.unix_ms
        },
        _ => false,
    }
}

/// The message is a user event about `p`.
pub open spec fn is_user_event(
    m: SyncplayMessage,
    room: SyncRoom,
    p: SyncParticipant,
    what: Option<UserEvent>,
) -> bool {
    match m {
        SyncplayMessage::User { username, room_name, event, file } => {
            &&& username@ == p.display_name@
            &&& room_name@ == room.name@
            &&& event == what
            &&& file == p.file
        },
        _ => false,
    }
}

/// The name by which a participant is known in the room.
pub open spec fn name_in(room: SyncRoom, id: ParticipantId) -> Option<Seq<char>> {
    match seat(room.participants@, id) {
        Some(i) => Some(room.participants@[i].display_name@),
        None => None,
    }
}

/// Collects the sockets of a user.
pub fn sockets_of(addrs: &Vec<UserAddr>, user_id: i64) -> (r: Vec<SocketAddr>)
    ensures
        r@ == addrs_of(addrs@, user_id),
{
    let mut r: Vec<SocketAddr> = Vec::new();
    let mut i: usize = 0;
    assert(addrs@.subrange(0, 0) =~= Seq::empty());
    while i < addrs.len()
        invariant
            0 <= i <= addrs@.len(),
            r@ == addrs_of(addrs@.subrange(0, i as int), user_id),
        decreases addrs@.len() - i,
    {
        assert(addrs@.subrange(0, i + 1).drop_last() =~= addrs@.subrange(0, i as int));
        if addrs[i].user_id == user_id {
            r.push(addrs[i].addr);
        }
        i = i + 1;
    }
    assert(addrs@.subrange(0, i as int) =~= addrs@);
    r
}

/// Whether the participant is the excluded one.
fn is_excluded(id: ParticipantId, exclude: Option<ParticipantId>) -> (r: bool)
    ensures
        r == (exclude == Some(id)),
{
    match exclude {
        Some(ex) => ex == id,
        None => false,
    }
}

/// Tells the room's web users of an event.
pub fn ws_broadcast_to_room(
    user_addrs: &Vec<UserAddr>,
    room: &SyncRoom,
    event: PushEventType,
    exclude: Option<ParticipantId>,
) -> (r: Vec<SyncNotification>)
    ensures
        only_ws(
            r@,
            ws_targets(user_addrs@, room.participants@, exclude),
            |e: PushEventType| e == event,
        ),
{
    let ps = &room.participants;
    let mut targets: Vec<SocketAddr> = Vec::new();
    let mut i: usize = 0;
    assert(ps@.subrange(0, 0) =~= Seq::empty());
    while i < ps.len()
        invariant
            0 <= i <= ps@.len(),
            targets@ == ws_targets(user_addrs@, ps@.subrange(0, i as int), exclude),
        decreases ps@.len() - i,
    {
        assert(ps@.subrange(0, i + 1).drop_last() =~= ps@.subrange(0, i as int));
        if let ParticipantKind::DimUser { user_id, .. } = ps[i].kind {
            if !is_excluded(ps[i].id, exclude) {
                let mut sockets = sockets_of(user_addrs, user_id);
                targets.append(&mut sockets);
            }
        }
        i = i + 1;
    }
    assert(ps@.subrange(0, i as int) =~= ps@);
    let mut r: Vec<SyncNotification> = Vec::new();
    if targets.len() > 0 {
        r.push(
            SyncNotification::WebSocket(
                WsBroadcast { targets, message: Message { id: -1, event_type: event } },
            ),
        );
    }
    r
}

/// Tells the room's Syncplay clients.
pub fn sp_broadcast_to_room(
    room: &SyncRoom,
    message: SyncplayMessage,
    exclude: Option<ParticipantId>,
) -> (r: Vec<SyncNotification>)
    ensures
        only_sp(r@, sp_targets(room.participants@, exclude), |m: SyncplayMessage| m == message),
{
    let ps = &room.participants;
    let mut conn_ids: Vec<u64> = Vec::new();
    let mut i: usize = 0;
    assert(ps@.subrange(0, 0) =~= Seq::empty());
    while i < ps.len()
        invariant
            0 <= i <= ps@.len(),
            conn_ids@ == sp_targets(ps@.subrange(0, i as int), exclude),
        decreases ps@.len() - i,
    {
        assert(ps@.subrange(0, i + 1).drop_last() =~= ps@.subrange(0, i as int));
        if let ParticipantKind::SyncplayClient { conn_id } = ps[i].kind {
            if !is_excluded(ps[i].id, exclude) {
                conn_ids.push(conn_id);
            }
        }
        i = i + 1;
    }
    assert(ps@.subrange(0, i as int) =~= ps@);
    let mut r: Vec<SyncNotification> = Vec::new();
    if conn_ids.len() > 0 {
        r.push(SyncNotification::Syncplay(SyncplayBroadcast { conn_ids, message }));
    }
    r
}

/// Both lists, the first one first.
pub fn both(first: Vec<SyncNotification>, second: Vec<SyncNotification>) -> (r: Vec<SyncNotification>)
    ensures
        r@ == first@ + second@,
        r@.subrange(0, first@.len() as int) == first@,
        r@.subrange(first@.len() as int, r@.len() as int) == second@,
{
    let mut r = first;
    let mut rest = second;
    r.append(&mut rest);
    assert(r@.subrange(0, first@.len() as int) =~= first@);
    assert(r@.subrange(first@.len() as int, r@.len() as int) =~= second@);
    r
}

/// The event for an update on a room.
pub fn make_room_update_message(room: &SyncRoom, clock: Clock) -> (r: PushEventType)
    ensures
        is_room_update(r, *room, clock),
{
    let info = room.to_info(clock);
    let media_file_id: i64 = match info.media_file_id {
        Some(id) => id,
        None => 0,
    };
    PushEventType::EventWatchTogetherRoomUpdate {
        room_code: info.code,
        media_file_id,
        media_name: info.media_name,
        playback_state: info.playback_state,
        playback_position: info.playback_position,
        server_time_ms: info.server_time_ms,
        participants: info.participants,
    }
}

/// The event for a playback command.
pub fn make_sync_message(room_code: &str, action: &str, position: Seconds, clock: Clock) -> (r:
    PushEventType)
    ensures
        is_sync(r, room_code@, action@, position, clock),
{
    PushEventType::EventWatchTogetherSync {
        room_code: room_code.to_owned(),
        action: action.to_owned(),
        position,
        server_time_ms: clock.unix_ms,
    }
}

/// The message for the room's state.
pub fn make_syncplay_state_message(
    room: &SyncRoom,
    do_seek: bool,
    set_by: Option<String>,
    clock: Clock,
) -> (r: SyncplayMessage)
    ensures
        is_state(
            r,
            *room,
            do_seek,
            match set_by {
                Some(s) => Some(s@),
                None => None,
            },
            clock,
        ),
{
    let position = room.current_position(clock);
    let paused = room.playback_state == PlaybackState::Paused;
    SyncplayMessage::State { position, paused, do_seek, set_by, server_time_ms: clock.unix_ms }
}

/// A copy of the file.
fn copy_file(file: &Option<ParticipantFile>) -> (r: Option<ParticipantFile>)
    ensures
        r == *file,
{
    match file {
        Some(f) => Some(f.copy()),
        None => None,
    }
}

/// The message for a user event.
pub fn make_syncplay_user_event(
    room: &SyncRoom,
    p: &SyncParticipant,
    event: Option<UserEvent>,
) -> (r: SyncplayMessage)
    ensures
        is_user_event(r, *room, *p, event),
{
    SyncplayMessage::User {
        username: p.display_name.clone(),
        room_name: room.name.clone(),
        event,
        file: copy_file(&p.file),
    }
}

/// `l` lists the participant `p`.
pub open spec fn lists(l: ListedUser, p: SyncParticipant, position: PlaybackPosition) -> bool {
    &&& l.name@ == p.display_name@
    &&& l.position == position
    &&& l.file == p.file
    &&& l.controller == p.is_host
    &&& l.is_ready == p.is_ready
}

/// The message is the list of the room's users.
pub open spec fn is_list(m: SyncplayMessage, room: SyncRoom, clock: Clock) -> bool {
    match m {
        SyncplayMessage::List { room_name, users } => {
            &&& room_name@ == room.name@
            &&& users@.len() == room.participants@.len()
            &&& forall|i: int|
                0 <= i < users@.len() ==> lists(
                    #[trigger] users@[i],
                    room.participants@[i],
                    position_at(room, clock),
                )
        },
        _ => false,
    }
}

/// The full user list of the room.
pub fn make_syncplay_list(room: &SyncRoom, clock: Clock) -> (r: SyncplayMessage)
    ensures
        is_list(r, *room, clock),
{
    let mut users: Vec<ListedUser> = Vec::new();
    let mut i: usize = 0;
    while i < room.participants.len()
        invariant
            0 <= i <= room.participants@.len(),
            users@.len() == i,
            forall|j: int|
                0 <= j < i ==> lists(
                    #[trigger] users@[j],
                    room.participants@[j],
                    position_at(*room, clock),
                ),
        decreases room.participants@.len() - i,
    {
        let p = &room.participants[i];
        users.push(
            ListedUser {
                name: p.display_name.clone(),
                position: room.current_position(clock),
                file: copy_file(&p.file),
                controller: p.is_host,
                is_ready: p.is_ready,
            },
        );
        i = i + 1;
    }
    SyncplayMessage::List { room_name: room.name.clone(), users }
}

}
