//! What watching together promises: who is told of what, who gets in, and who is in a room.

use vstd::prelude::*;

use crate::events::{PushEventType, Seconds};
use crate::sync_engine::engine::{
    alias_at, engine_wf, is_unique_name, lemma_room_at, lets_in, md5_hex, name_taken, numbered, room_at, SyncEngine,
};
use crate::sync_engine::membership::{
    all_deliveries, code_for, created, deliveries_for, departed, disconnected, farewell, first_web_user,
    is_new_room, joined_by_name, joined_room, law_joined_is_member, law_left_everywhere, left_room,
    room_joined, room_left, room_with, socket_closed, successor, welcome, without, Delivery,
};
use crate::sync_engine::notices::{
    addrs_of, sp_targets, ws_targets, SocketAddr, SyncNotification, SyncplayMessage, UserAddr, UserEvent,
};
use crate::sync_engine::playback::tells_playback;
use crate::sync_engine::room::{
    describes, host_of, host_seat, is_member, lemma_host_seat, lemma_seat, seat, Clock, ControlMode,
    ParticipantId, ParticipantKind, PlaybackState, RoomInfo, SyncParticipant, SyncRoom,
};
use crate::text::ascii_lowered;

verus! {

/// `addr` is a socket of a web user among the participants, other than the excluded one.
pub open spec fn is_web_socket_of(
    addrs: Seq<UserAddr>,
    ps: Seq<SyncParticipant>,
    exclude: Option<ParticipantId>,
    addr: SocketAddr,
) -> bool {
    exists|i: int, j: int|
        0 <= i < ps.len() && 0 <= j < addrs.len() && (#[trigger] addrs[j]).addr == addr && ((
        #[trigger] ps[i]).kind matches ParticipantKind::DimUser { user_id, picture } && user_id
            == addrs[j].user_id) && exclude != Some(ps[i].id)
}

/// `conn` is that of a Syncplay client among the participants, other than the excluded one.
pub open spec fn is_connection_of(
    ps: Seq<SyncParticipant>,
    exclude: Option<ParticipantId>,
    conn: u64,
) -> bool {
    exists|i: int|
        0 <= i < ps.len() && ((#[trigger] ps[i]).kind matches ParticipantKind::SyncplayClient {
            conn_id,
        } && conn_id == conn) && exclude != Some(ps[i].id)
}

proof fn lemma_addrs_of(addrs: Seq<UserAddr>, user: i64, addr: SocketAddr)
    ensures
        addrs_of(addrs, user).contains(addr) <==> exists|j: int|
            0 <= j < addrs.len() && (#[trigger] addrs[j]).addr == addr && addrs[j].user_id == user,
    decreases addrs.len(),
{
    if addrs.len() > 0 {
        let less = addrs.drop_last();
        lemma_addrs_of(less, user, addr);
        let before = addrs_of(less, user);
        let all = addrs_of(addrs, user);
        if all.contains(addr) {
            let k = choose|k: int| 0 <= k < all.len() && all[k] == addr;
            if k < before.len() {
                assert(before[k] == addr);
                let j = choose|j: int|
                    0 <= j < less.len() && (#[trigger] less[j]).addr == addr && less[j].user_id == user;
                assert(addrs[j].addr == addr && addrs[j].user_id == user);
            } else {
                assert(addrs[addrs.len() - 1].addr == addr);
            }
        }
        if exists|j: int|
            0 <= j < addrs.len() && (#[trigger] addrs[j]).addr == addr && addrs[j].user_id == user {
            let j = choose|j: int|
                0 <= j < addrs.len() && (#[trigger] addrs[j]).addr == addr && addrs[j].user_id == user;
            if j < less.len() {
                assert(less[j].addr == addr && less[j].user_id == user);
                let k = choose|k: int| 0 <= k < before.len() && before[k] == addr;
                assert(all[k] == addr);
            } else {
                assert(all[all.len() - 1] == addr);
            }
        }
    }
}

/// An event for the web users of a room goes to every socket of every one of them but the excluded, and
/// to no other socket.
pub proof fn law_web_users_are_reached(
    addrs: Seq<UserAddr>,
    ps: Seq<SyncParticipant>,
    exclude: Option<ParticipantId>,
    addr: SocketAddr,
)
    ensures
        ws_targets(addrs, ps, exclude).contains(addr) <==> is_web_socket_of(addrs, ps, exclude, addr),
    decreases ps.len(),
{
    if ps.len() > 0 {
        let less = ps.drop_last();
        let last = ps.last();
        law_web_users_are_reached(addrs, less, exclude, addr);
        let before = ws_targets(addrs, less, exclude);
        let all = ws_targets(addrs, ps, exclude);
        assert forall|i: int| 0 <= i < less.len() implies #[trigger] ps[i] == less[i] by {}
        if let ParticipantKind::DimUser { user_id, picture } = last.kind {
            lemma_addrs_of(addrs, user_id, addr);
            let more = addrs_of(addrs, user_id);
            if all.contains(addr) {
                let k = choose|k: int| 0 <= k < all.len() && all[k] == addr;
                if k < before.len() {
                    assert(before[k] == addr);
                } else {
                    assert(more[k - before.len()] == addr);
                }
            }
            if before.contains(addr) {
                let k = choose|k: int| 0 <= k < before.len() && before[k] == addr;
                assert(all[k] == addr);
            }
            if exclude != Some(last.id) && more.contains(addr) {
                let k = choose|k: int| 0 <= k < more.len() && more[k] == addr;
                assert(all[before.len() + k] == addr);
                let j = choose|j: int|
                    0 <= j < addrs.len() && (#[trigger] addrs[j]).addr == addr && addrs[j].user_id
                        == user_id;
                assert(ps[ps.len() - 1].kind is DimUser && addrs[j].addr == addr);
            }
        }
        if is_web_socket_of(addrs, less, exclude, addr) {
            let (i, j) = choose|i: int, j: int|
                0 <= i < less.len() && 0 <= j < addrs.len() && (#[trigger] addrs[j]).addr == addr && ((
                #[trigger] less[i]).kind matches ParticipantKind::DimUser { user_id, picture }
                    && user_id == addrs[j].user_id) && exclude != Some(less[i].id);
            assert(ps[i] == less[i] && addrs[j].addr == addr);
        }
        if is_web_socket_of(addrs, ps, exclude, addr) {
            let (i, j) = choose|i: int, j: int|
                0 <= i < ps.len() && 0 <= j < addrs.len() && (#[trigger] addrs[j]).addr == addr && ((
                #[trigger] ps[i]).kind matches ParticipantKind::DimUser { user_id, picture }
                    && user_id == addrs[j].user_id) && exclude != Some(ps[i].id);
            if i < less.len() {
                assert(less[i] == ps[i] && addrs[j].addr == addr);
            }
        }
    }
}

/// A message for the Syncplay clients of a room goes to every one of them but the excluded, and to nobody
/// else.
pub proof fn law_syncplay_clients_are_reached(
    ps: Seq<SyncParticipant>,
    exclude: Option<ParticipantId>,
    conn: u64,
)
    ensures
        sp_targets(ps, exclude).contains(conn) <==> is_connection_of(ps, exclude, conn),
    decreases ps.len(),
{
    if ps.len() > 0 {
        let less = ps.drop_last();
        law_syncplay_clients_are_reached(less, exclude, conn);
        let before = sp_targets(less, exclude);
        let all = sp_targets(ps, exclude);
        assert forall|i: int| 0 <= i < less.len() implies #[trigger] ps[i] == less[i] by {}
        if all.contains(conn) {
            let k = choose|k: int| 0 <= k < all.len() && all[k] == conn;
            if k < before.len() {
                assert(before[k] == conn);
                let i = choose|i: int|
                    0 <= i < less.len() && ((
                    #[trigger] less[i]).kind matches ParticipantKind::SyncplayClient { conn_id }
                        && conn_id == conn) && exclude != Some(less[i].id);
                assert(ps[i] == less[i]);
            } else {
                assert(ps[ps.len() - 1].kind is SyncplayClient);
            }
        }
        if is_connection_of(ps, exclude, conn) {
            let i = choose|i: int|
                0 <= i < ps.len() && ((#[trigger] ps[i]).kind matches ParticipantKind::SyncplayClient {
                    conn_id,
                } && conn_id == conn) && exclude != Some(ps[i].id);
            if i < less.len() {
                assert(less[i] == ps[i]);
                let k = choose|k: int| 0 <= k < before.len() && before[k] == conn;
                assert(all[k] == conn);
            } else {
                assert(all[all.len() - 1] == conn);
            }
        }
    }
}

/// A playback command reaches everybody in the room but the one who gave it: every socket of every other
/// web user is sent the action and the position, and every other Syncplay client the state and the position
/// of the room.
pub proof fn law_commands_reach_the_others(
    ns: Seq<SyncNotification>,
    e: SyncEngine,
    room: SyncRoom,
    id: ParticipantId,
    action: Seq<char>,
    position: Seconds,
    seek: bool,
    clock: Clock,
)
    requires
        tells_playback(ns, e, room, id, action, position, seek, clock),
    ensures
        forall|addr: SocketAddr|
            #[trigger] is_web_socket_of(e.user_addrs@, room.participants@, Some(id), addr) ==> exists|
                k: int,
            |
                0 <= k < ns.len() && (#[trigger] ns[k] matches SyncNotification::WebSocket(b)
                    && b.targets@.contains(addr) && (
                b.message.event_type matches PushEventType::EventWatchTogetherSync {
                    room_code,
                    action: act,
                    position: pos,
                    server_time_ms,
                } && room_code@ == room.code@ && act@ == action && pos == position && server_time_ms
                    == clock.unix_ms)),
        forall|conn: u64|
            #[trigger] is_connection_of(room.participants@, Some(id), conn) ==> exists|k: int|
                0 <= k < ns.len() && (#[trigger] ns[k] matches SyncNotification::Syncplay(b)
                    && b.conn_ids@.contains(conn) && (b.message matches SyncplayMessage::State {
                    position: pos,
                    paused,
                    do_seek,
                    set_by,
                    server_time_ms,
                } && paused == (room.playback_state == PlaybackState::Paused) && pos.base
                    == room.playback_position && do_seek == seek && (
                pos.playing_nanos is None <==> paused))),
        forall|k: int|
            0 <= k < ns.len() ==> match #[trigger] ns[k] {
                SyncNotification::WebSocket(b) => forall|addr: SocketAddr| #[trigger]
                    b.targets@.contains(addr) ==> is_web_socket_of(
                        e.user_addrs@,
                        room.participants@,
                        Some(id),
                        addr,
                    ),
                SyncNotification::Syncplay(b) => forall|conn: u64| #[trigger]
                    b.conn_ids@.contains(conn) ==> is_connection_of(
                        room.participants@,
                        Some(id),
                        conn,
                    ),
            },
{
    let targets = ws_targets(e.user_addrs@, room.participants@, Some(id));
    let conns = sp_targets(room.participants@, Some(id));
    let n = if targets.len() == 0 {
        0int
    } else {
        1
    };
    assert(n > 0 ==> ns.subrange(0, n)[0] == ns[0]);
    assert(conns.len() > 0 ==> ns.subrange(n, ns.len() as int)[0] == ns[n]);
    assert(ns.len() == n + ns.subrange(n, ns.len() as int).len());
    assert forall|addr: SocketAddr| #[trigger]
        is_web_socket_of(e.user_addrs@, room.participants@, Some(id), addr) implies targets.contains(
        addr,
    ) by {
        law_web_users_are_reached(e.user_addrs@, room.participants@, Some(id), addr);
    }
    assert forall|conn: u64| #[trigger]
        is_connection_of(room.participants@, Some(id), conn) implies conns.contains(conn) by {
        law_syncplay_clients_are_reached(room.participants@, Some(id), conn);
    }
    assert forall|k: int| 0 <= k < ns.len() implies match #[trigger] ns[k] {
        SyncNotification::WebSocket(b) => forall|addr: SocketAddr| #[trigger]
            b.targets@.contains(addr) ==> is_web_socket_of(
                e.user_addrs@,
                room.participants@,
                Some(id),
                addr,
            ),
        SyncNotification::Syncplay(b) => forall|conn: u64| #[trigger]
            b.conn_ids@.contains(conn) ==> is_connection_of(room.participants@, Some(id), conn),
    } by {
        match ns[k] {
            SyncNotification::WebSocket(b) => {
                assert forall|addr: SocketAddr| #[trigger]
                    b.targets@.contains(addr) implies is_web_socket_of(
                    e.user_addrs@,
                    room.participants@,
                    Some(id),
                    addr,
                ) by {
                    law_web_users_are_reached(e.user_addrs@, room.participants@, Some(id), addr);
                }
            },
            SyncNotification::Syncplay(b) => {
                assert forall|conn: u64| #[trigger]
                    b.conn_ids@.contains(conn) implies is_connection_of(
                    room.participants@,
                    Some(id),
                    conn,
                ) by {
                    law_syncplay_clients_are_reached(room.participants@, Some(id), conn);
                }
            },
        }
    }
}

/// A room without a password, or with an empty one, lets everybody in. Any other lets in exactly those who
/// supply its password, or its digest in letters of either case.
pub proof fn law_passwords_keep_others_out(room: SyncRoom, supplied: Option<Seq<char>>)
    ensures
        room.password is None ==> lets_in(room, supplied),
        room.password matches Some(p) ==> {
            &&& p@.len() == 0 ==> lets_in(room, supplied)
            &&& lets_in(room, Some(p@))
            &&& lets_in(room, Some(md5_hex(p@)))
            &&& p@.len() > 0 && supplied is None ==> !lets_in(room, supplied)
            &&& p@.len() > 0 && supplied is Some && supplied->0 != p@ && ascii_lowered(supplied->0)
                != ascii_lowered(md5_hex(p@)) ==> !lets_in(room, supplied)
            &&& supplied is Some && ascii_lowered(supplied->0) == ascii_lowered(md5_hex(p@))
                ==> lets_in(room, supplied)
        },
{
}

/// Whoever joins gets the name asked for where nobody has it, and otherwise that name and a number that
/// nobody has; nobody in the room has it before.
pub proof fn law_names_are_unique(ps: Seq<SyncParticipant>, base: Seq<char>, name: Seq<char>)
    requires
        is_unique_name(ps, base, name),
    ensures
        forall|i: int| 0 <= i < ps.len() ==> (#[trigger] ps[i]).display_name@ != name,
        (forall|i: int| 0 <= i < ps.len() ==> (#[trigger] ps[i]).display_name@ != base) ==> name == base,
        name != base ==> exists|n: nat|
            2 <= n && name == base + " ("@ + #[trigger] crate::text::dec(n) + ")"@,
{
    if name_taken(ps, base) {
        let n = choose|n: nat|
            2 <= n && name == #[trigger] numbered(base, n) && !name_taken(ps, numbered(base, n))
                && forall|m: nat| 2 <= m < n ==> name_taken(ps, #[trigger] numbered(base, m));
        assert(name == base + " ("@ + crate::text::dec(n) + ")"@);
    }
    assert forall|i: int| 0 <= i < ps.len() implies (#[trigger] ps[i]).display_name@ != name by {
        if ps[i].display_name@ == name {
            assert(name_taken(ps, name));
        }
    }
}

/// Whoever joins is in the room afterwards, once, as what they joined as; everybody who was there still is,
/// the host is the same, and playback goes on as it was.
pub proof fn law_joining_adds_one(before: SyncRoom, after: SyncRoom, p: SyncParticipant)
    requires
        joined_room(before, after, p),
    ensures
        is_member(after, p.id),
        forall|i: int|
            0 <= i < before.participants@.len() ==> #[trigger] after.participants@[i]
                == before.participants@[i],
        after.participants@.len() == before.participants@.len() + if is_member(before, p.id) {
            0int
        } else {
            1
        },
        !is_member(before, p.id) ==> {
            let q = after.participants@[after.participants@.len() - 1];
            &&& q.id == p.id
            &&& q.kind == p.kind
            &&& q.is_host == p.is_host
            &&& q.is_ready == p.is_ready
            &&& q.file == p.file
        },
        before.participants@.len() > 0 && host_seat(before.participants@) is Some ==> host_of(after)
            == host_of(before),
        after.playback_state == before.playback_state,
        after.playback_position == before.playback_position,
        after.code == before.code,
        after.password == before.password,
        after.media_file_id == before.media_file_id,
        after.control_mode == before.control_mode,
{
    lemma_seat(before.participants@, p.id);
    lemma_seat(after.participants@, p.id);
    lemma_host_seat(before.participants@);
    lemma_host_seat(after.participants@);
    if !is_member(before, p.id) {
        assert(after.participants@.last().id == p.id);
        if host_seat(before.participants@) is Some {
            let h = host_seat(before.participants@)->0;
            assert(after.participants@[h] == before.participants@[h]);
            let g = host_seat(after.participants@)->0;
            if g < before.participants@.len() {
                assert(after.participants@[g] == before.participants@[g]);
            }
        }
    }
}

/// Whoever leaves is gone from the room, and everybody else is still there, in order. Where the host leaves,
/// the first web user becomes host, or, without one, the first participant; otherwise the hosts stay.
pub proof fn law_leaving_removes_one(ps: Seq<SyncParticipant>, i: int)
    requires
        0 <= i < ps.len(),
        ps.len() > 1,
    ensures
        without(ps, i).len() == ps.len() - 1,
        forall|j: int|
            0 <= j < ps.len() && j != i ==> {
                let q = without(ps, i)[if j < i {
                    j
                } else {
                    j - 1
                }];
                &&& q.id == (#[trigger] ps[j]).id
                &&& q.display_name == ps[j].display_name
                &&& q.kind == ps[j].kind
                &&& q.is_ready == ps[j].is_ready
                &&& q.latency_ms == ps[j].latency_ms
                &&& q.file == ps[j].file
                &&& ps[j].is_host ==> q.is_host
                &&& !ps[i].is_host ==> q.is_host == ps[j].is_host
            },
        ps[i].is_host ==> exists|j: int|
            #![trigger ps[j]]
            {
                &&& 0 <= j < ps.len()
                &&& j != i
                &&& without(ps, i)[if j < i {
                    j
                } else {
                    j - 1
                }].is_host
                &&& (ps[j].kind is DimUser && forall|k: int|
                    0 <= k < j && k != i ==> !((#[trigger] ps[k]).kind is DimUser)) || ((forall|k: int|
                    0 <= k < ps.len() && k != i ==> !((#[trigger] ps[k]).kind is DimUser)) && j == if i
                    == 0 {
                    1int
                } else {
                    0
                })
            },
{
    let rest = ps.remove(i);
    assert forall|j: int| 0 <= j < ps.len() && j != i implies #[trigger] ps[j] == rest[if j < i {
        j
    } else {
        j - 1
    }] by {}
    lemma_first_web_user(rest);
    if ps[i].is_host {
        let s = successor(rest);
        let j = if s < i {
            s
        } else {
            s + 1
        };
        assert(without(ps, i)[s].is_host);
        assert(ps[j] == rest[s]);
        assert forall|k: int| 0 <= k < j && k != i implies !((#[trigger] ps[k]).kind is DimUser) by {
            let m = if k < i {
                k
            } else {
                k - 1
            };
            assert(ps[k] == rest[m]);
        }
    }
}

proof fn lemma_first_web_user(ps: Seq<SyncParticipant>)
    ensures
        match first_web_user(ps) {
            Some(i) => 0 <= i < ps.len() && ps[i].kind is DimUser && forall|j: int|
                0 <= j < i ==> !((#[trigger] ps[j]).kind is DimUser),
            None => forall|j: int| 0 <= j < ps.len() ==> !((#[trigger] ps[j]).kind is DimUser),
        },
    decreases ps.len(),
{
    if ps.len() > 0 {
        lemma_first_web_user(ps.drop_last());
        assert forall|j: int| 0 <= j < ps.len() - 1 implies #[trigger] ps[j]
            == ps.drop_last()[j] by {}
    }
}

/// A room that its last participant leaves is gone, and every other room is as it was; a room that is left
/// to others stays, without the one who left.
pub proof fn law_empty_rooms_are_gone(a: SyncEngine, b: SyncEngine, i: int, id: ParticipantId)
    requires
        departed(a, b, i, id),
        0 <= i < a.rooms@.len(),
        forall|j: int, k: int|
            0 <= j < k < a.rooms@.len() ==> (#[trigger] a.rooms@[j]).code@ != (
            #[trigger] a.rooms@[k]).code@,
        is_member(a.rooms@[i], id),
    ensures
        a.rooms@[i].participants@.len() == 1 ==> room_at(b.rooms@, a.rooms@[i].code@) is None
            && b.rooms@.len() == a.rooms@.len() - 1,
        a.rooms@[i].participants@.len() > 1 ==> b.rooms@.len() == a.rooms@.len()
            && b.rooms@[i].participants@.len() == a.rooms@[i].participants@.len() - 1
            && b.rooms@[i].code == a.rooms@[i].code,
        forall|j: int|
            0 <= j < a.rooms@.len() && j != i ==> b.rooms@.contains(#[trigger] a.rooms@[j]),
{
    lemma_seat(a.rooms@[i].participants@, id);
    let n = a.rooms@[i].participants@.len();
    lemma_room_at(b.rooms@, a.rooms@[i].code@);
    if n > 1 {
        law_leaving_removes_one(a.rooms@[i].participants@, seat(a.rooms@[i].participants@, id)->0);
    }
    if n == 1 {
        assert forall|j: int| 0 <= j < b.rooms@.len() implies (#[trigger] b.rooms@[j]).code@
            != a.rooms@[i].code@ by {
            if j < i {
                assert(b.rooms@[j] == a.rooms@[j]);
            } else {
                assert(b.rooms@[j] == a.rooms@[j + 1]);
            }
        }
    }
    assert forall|j: int| 0 <= j < a.rooms@.len() && j != i implies b.rooms@.contains(
        #[trigger] a.rooms@[j],
    ) by {
        if n == 1 {
            let k = if j < i {
                j
            } else {
                j - 1
            };
            assert(b.rooms@[k] == a.rooms@[j]);
        } else {
            assert(b.rooms@[j] == a.rooms@[j]);
        }
    }
}

/// A new room is one more: it has the one who made it as its host and only participant, stands still at the
/// start, and is controlled by the host unless something else is said.
pub proof fn law_new_rooms_have_their_maker_as_host(
    a: SyncEngine,
    b: SyncEngine,
    code: Seq<char>,
    name: Seq<char>,
    media_file_id: Option<i64>,
    media_id: Option<i64>,
    media_name: String,
    creator: ParticipantId,
    display_name: String,
    kind: ParticipantKind,
    control_mode: Option<ControlMode>,
    password: Option<String>,
    clock: Clock,
)
    requires
        created(a, b, code, name),
        is_new_room(
            b.rooms@.last(),
            code,
            name,
            media_file_id,
            media_id,
            media_name,
            creator,
            display_name,
            kind,
            control_mode,
            password,
            clock,
        ),
        room_at(a.rooms@, code) is None,
    ensures
        room_at(b.rooms@, code) == Some(a.rooms@.len() as int),
        forall|i: int| 0 <= i < a.rooms@.len() ==> #[trigger] b.rooms@[i] == a.rooms@[i],
        ({
            let room = b.rooms@[a.rooms@.len() as int];
            &&& host_of(room) == Some(creator)
            &&& room.participants@.len() == 1
            &&& room.participants@[0].display_name == display_name
            &&& room.participants@[0].kind == kind
            &&& room.playback_state == PlaybackState::Paused
            &&& room.playback_position.bits == 0
            &&& room.media_file_id == media_file_id
            &&& room.media_id == media_id
            &&& room.media_name == media_name
            &&& room.password == password
            &&& control_mode is None ==> room.control_mode == ControlMode::HostOnly
            &&& control_mode matches Some(mode) ==> room.control_mode == mode
        }),
{
    let n = a.rooms@.len() as int;
    assert forall|i: int| 0 <= i < n implies #[trigger] b.rooms@[i] == a.rooms@[i] by {
        assert(b.rooms@.drop_last()[i] == b.rooms@[i]);
    }
    lemma_room_at(a.rooms@, code);
    lemma_room_at(b.rooms@, code);
    assert(b.rooms@[n].code@ == code);
    if let Some(i) = room_at(b.rooms@, code) {
        if i < n {
            assert(b.rooms@[i] == a.rooms@[i]);
        }
    }
    lemma_host_seat(b.rooms@[n].participants@);
    assert(b.rooms@[n].participants@[0].is_host);
}

/// Everybody who is in a room learns of somebody who joins it: the Syncplay clients by the name that the one is
/// given, and the web users by the state of the room.
pub proof fn law_newcomers_are_announced(
    ns: Seq<SyncNotification>,
    addrs: Seq<UserAddr>,
    before: SyncRoom,
    after: SyncRoom,
    p: SyncParticipant,
    clock: Clock,
)
    requires
        joined_room(before, after, p),
        !is_member(before, p.id),
        welcome(ns, addrs, before, after, p.id, clock),
    ensures
        ({
            let others = sp_targets(after.participants@, Some(p.id));
            let web = ws_targets(addrs, after.participants@, None);
            let n = after.participants@.len() - 1;
            &&& others.len() > 0 ==> (ns[0] matches SyncNotification::Syncplay(s) && s.conn_ids@ == others && (
            s.message matches SyncplayMessage::User { username, room_name, event, file } && username@
                == after.participants@[n].display_name@ && room_name@ == before.name@ && event == Some(
                UserEvent::Joined,
            )))
            &&& web.len() > 0 ==> (ns[ns.len() - 1] matches SyncNotification::WebSocket(w) && w.targets@ == web
                && (w.message.event_type matches PushEventType::EventWatchTogetherRoomUpdate {
                room_code,
                media_file_id,
                media_name,
                playback_state,
                playback_position,
                server_time_ms,
                participants,
            } && room_code@ == before.code@ && participants@.len() == before.participants@.len() + 1
                && participants@[n].username@ == after.participants@[n].display_name@))
            &&& others.len() == 0 && web.len() == 0 ==> ns.len() == 0
        }),
{
}

/// Those who stay learn of somebody who leaves: the Syncplay clients by name, and the web users by the state of
/// the room.
pub proof fn law_departures_are_announced(
    ns: Seq<SyncNotification>,
    addrs: Seq<UserAddr>,
    before: SyncRoom,
    after: SyncRoom,
    id: ParticipantId,
    k: int,
    clock: Clock,
)
    requires
        left_room(before, after, id),
        seat(before.participants@, id) == Some(k),
        farewell(ns, addrs, before, after, id, clock),
    ensures
        ({
            let others = sp_targets(after.participants@, None);
            let web = ws_targets(addrs, after.participants@, None);
            &&& others.len() > 0 ==> (ns[0] matches SyncNotification::Syncplay(s) && s.conn_ids@ == others && (
            s.message matches SyncplayMessage::User { username, room_name, event, file } && username@
                == before.participants@[k].display_name@ && room_name@ == before.name@ && event == Some(
                UserEvent::Left,
            )))
            &&& web.len() > 0 ==> (ns[ns.len() - 1] matches SyncNotification::WebSocket(w) && w.targets@ == web
                && (w.message.event_type matches PushEventType::EventWatchTogetherRoomUpdate {
                room_code,
                media_file_id,
                media_name,
                playback_state,
                playback_position,
                server_time_ms,
                participants,
            } && room_code@ == before.code@ && participants@.len() == after.participants@.len()))
        }),
{
}

/// Every notification is delivered: one for web sockets as it is, and one for Syncplay clients to each of its
/// connections that is registered, and to no other.
pub proof fn law_notifications_are_delivered(ns: Seq<SyncNotification>, conns: Seq<u64>, i: int)
    requires
        0 <= i < ns.len(),
    ensures
        ns[i] matches SyncNotification::WebSocket(b) ==> all_deliveries(ns, conns).contains(
            Delivery::WebSocket(&b),
        ),
        ns[i] matches SyncNotification::Syncplay(b) ==> forall|c: u64|
            b.conn_ids@.contains(c) && conns.contains(c) ==> #[trigger] all_deliveries(ns, conns).contains(
                Delivery::Syncplay(c, &b.message),
            ),
    decreases ns.len(),
{
    let before = all_deliveries(ns.drop_last(), conns);
    let last = deliveries_for(&ns.last(), conns);
    let all = all_deliveries(ns, conns);
    assert(all =~= before + last);
    if i < ns.len() - 1 {
        law_notifications_are_delivered(ns.drop_last(), conns, i);
        match ns[i] {
            SyncNotification::WebSocket(b) => {
                let d = Delivery::WebSocket(&b);
                let j = choose|j: int| 0 <= j < before.len() && before[j] == d;
                assert(all[j] == d);
            },
            SyncNotification::Syncplay(b) => {
                assert forall|c: u64|
                    b.conn_ids@.contains(c) && conns.contains(c) implies #[trigger] all.contains(
                    Delivery::Syncplay(c, &b.message),
                ) by {
                    let d = Delivery::Syncplay(c, &b.message);
                    assert(before.contains(d));
                    let j = choose|j: int| 0 <= j < before.len() && before[j] == d;
                    assert(all[j] == d);
                }
            },
        }
    } else {
        match ns[i] {
            SyncNotification::WebSocket(b) => {
                assert(last[0] == Delivery::WebSocket(&b));
                assert(all[before.len() as int] == Delivery::WebSocket(&b));
            },
            SyncNotification::Syncplay(b) => {
                let f = |c: u64| conns.contains(c);
                let ids = b.conn_ids@.filter(f);
                assert forall|c: u64|
                    b.conn_ids@.contains(c) && conns.contains(c) implies #[trigger] all.contains(
                    Delivery::Syncplay(c, &b.message),
                ) by {
                    let k = choose|k: int| 0 <= k < b.conn_ids@.len() && b.conn_ids@[k] == c;
                    b.conn_ids@.lemma_filter_contains(f, k);
                    let j = choose|j: int| 0 <= j < ids.len() && ids[j] == c;
                    assert(last[j] == Delivery::Syncplay(c, &b.message));
                    assert(all[before.len() + j] == Delivery::Syncplay(c, &b.message));
                }
            },
        }
    }
}

/// A Syncplay message is delivered only to connections that are registered.
pub proof fn law_unregistered_connections_get_nothing(ns: Seq<SyncNotification>, conns: Seq<u64>, k: int)
    requires
        0 <= k < all_deliveries(ns, conns).len(),
    ensures
        all_deliveries(ns, conns)[k] matches Delivery::Syncplay(c, _) ==> conns.contains(c),
    decreases ns.len(),
{
    let before = all_deliveries(ns.drop_last(), conns);
    let last = deliveries_for(&ns.last(), conns);
    if k < before.len() {
        law_unregistered_connections_get_nothing(ns.drop_last(), conns, k);
    } else if let SyncNotification::Syncplay(b) = ns.last() {
        let f = |c: u64| conns.contains(c);
        b.conn_ids@.lemma_filter_pred(f, k - before.len());
    }
}

/// A room is found by its code, and else by its name.
pub proof fn law_rooms_are_found_by_code_or_name(e: SyncEngine, name: Seq<char>)
    ensures
        room_at(e.rooms@, name) is Some ==> code_for(e, name) == Some(name),
        room_at(e.rooms@, name) is None ==> code_for(e, name) == alias_at(e.room_name_aliases@, name),
        room_at(e.rooms@, name) matches Some(i) ==> 0 <= i < e.rooms@.len() && e.rooms@[i].code@ == name,
        room_at(e.rooms@, name) is None ==> forall|i: int|
            0 <= i < e.rooms@.len() ==> (#[trigger] e.rooms@[i]).code@ != name,
{
    lemma_room_at(e.rooms@, name);
}

/// Who joins by the name of a room that there is joins that room; by any other name a room is made, with the one
/// as its host, in which everybody may control playback, and without a password.
pub proof fn law_names_lead_to_rooms(
    a: SyncEngine,
    b: SyncEngine,
    p: SyncParticipant,
    name: Seq<char>,
    password: Option<Seq<char>>,
    clock: Clock,
    r: Result<(String, RoomInfo, Vec<SyncNotification>), &'static str>,
)
    requires
        joined_by_name(a, b, p, name, password, clock, r),
    ensures
        code_for(a, name) matches Some(code) ==> b.rooms@.len() == a.rooms@.len() && ({
            let i = room_at(a.rooms@, code)->0;
            &&& lets_in(a.rooms@[i], password) ==> r is Ok && joined_room(a.rooms@[i], b.rooms@[i], p)
                && r->Ok_0.0@ == code
            &&& !lets_in(a.rooms@[i], password) ==> r is Err && b == a
        }),
        code_for(a, name) is None && r is Ok ==> {
            let room = b.rooms@[b.rooms@.len() - 1];
            &&& b.rooms@.len() == a.rooms@.len() + 1
            &&& room.name@ == name
            &&& room.code@ == r->Ok_0.0@
            &&& room.password is None
            &&& room.control_mode == ControlMode::Egalitarian
            &&& room.participants@.len() == 1
            &&& room.participants@[0].id == p.id
            &&& room.participants@[0].is_host
            &&& room.playback_state == PlaybackState::Paused
        },
        code_for(a, name) is None && r is Err ==> b == a,
{
}

/// What is told of a room is what it is: who is in it, who hosts it, what it watches and where it stands. While
/// it plays, that is as many nanoseconds later as have gone by.
pub proof fn law_rooms_are_described(info: RoomInfo, room: SyncRoom, clock: Clock)
    requires
        describes(info, room, clock),
    ensures
        info.code@ == room.code@,
        info.media_file_id == room.media_file_id,
        info.media_name@ == room.media_name@,
        info.participants@.len() == room.participants@.len(),
        forall|i: int|
            0 <= i < info.participants@.len() ==> (#[trigger] info.participants@[i]).username@
                == room.participants@[i].display_name@ && info.participants@[i].is_host
                == room.participants@[i].is_host && info.participants@[i].is_ready
                == room.participants@[i].is_ready && info.participants@[i].is_buffering
                == room.participants@[i].is_buffering,
        info.playback_position.base == room.playback_position,
        room.playback_state == PlaybackState::Paused ==> info.playback_state@ == "paused"@
            && info.playback_position.playing_nanos is None,
        room.playback_state == PlaybackState::Playing ==> info.playback_state@ == "playing"@ && (
        clock.monotonic_nanos >= room.last_position_update ==> info.playback_position.playing_nanos == Some(
            (clock.monotonic_nanos - room.last_position_update) as u64,
        )),
        info.server_time_ms == clock.unix_ms,
{
}

/// A connection that drops takes its participant out of its room.
pub proof fn law_dropped_connections_leave(
    a: SyncEngine,
    b: SyncEngine,
    id: ParticipantId,
    clock: Clock,
    r: Option<Vec<SyncNotification>>,
    i: int,
)
    requires
        disconnected(a, b, id, clock, r),
        room_with(a.rooms@, id) == Some(i),
    ensures
        a.rooms@[i].participants@.len() == 1 ==> r is None && b.rooms@ == a.rooms@.remove(i),
        a.rooms@[i].participants@.len() != 1 ==> b.rooms@.len() == a.rooms@.len() && left_room(
            a.rooms@[i],
            b.rooms@[i],
            id,
        ),
        a.rooms@[i].participants@.len() > 1 ==> r is Some,
{
}

/// Who joins a room by its code is let in with the password of the room, and is in it then. Without it, and where
/// there is no such room, nothing changes.
pub proof fn law_rooms_are_joined_by_code(
    a: SyncEngine,
    b: SyncEngine,
    p: SyncParticipant,
    code: Seq<char>,
    password: Option<Seq<char>>,
    clock: Clock,
    r: Result<(RoomInfo, Vec<SyncNotification>), &'static str>,
)
    requires
        room_joined(a, b, p, code, password, clock, r),
    ensures
        room_at(a.rooms@, code) is None ==> r is Err && b == a,
        room_at(a.rooms@, code) matches Some(i) ==> (!lets_in(a.rooms@[i], password) ==> r is Err && b == a),
        room_at(a.rooms@, code) matches Some(i) ==> (lets_in(a.rooms@[i], password) ==> r is Ok
            && is_member(b.rooms@[i], p.id) && describes(r->Ok_0.0, b.rooms@[i], clock) && b.rooms@.len()
            == a.rooms@.len() && b.rooms@[i].playback_state == a.rooms@[i].playback_state),
{
    if let Some(i) = room_at(a.rooms@, code) {
        if lets_in(a.rooms@[i], password) {
            law_joined_is_member(a.rooms@[i], b.rooms@[i], p);
        }
    }
}

/// Who leaves a room is taken out of it, and those who stay are told. Somebody who is not in it changes nothing.
pub proof fn law_rooms_are_left(
    a: SyncEngine,
    b: SyncEngine,
    id: ParticipantId,
    code: Seq<char>,
    clock: Clock,
    r: Result<Option<Vec<SyncNotification>>, &'static str>,
    i: int,
)
    requires
        room_left(a, b, id, code, clock, r),
        room_at(a.rooms@, code) == Some(i),
    ensures
        !is_member(a.rooms@[i], id) ==> b == a && r matches Ok(None),
        is_member(a.rooms@[i], id) && a.rooms@[i].participants@.len() == 1 ==> b.rooms@ == a.rooms@.remove(i)
            && r matches Ok(None),
        is_member(a.rooms@[i], id) && a.rooms@[i].participants@.len() > 1 ==> b.rooms@.len()
            == a.rooms@.len() && left_room(a.rooms@[i], b.rooms@[i], id) && r matches Ok(Some(_)),
{
}

/// A user whose last socket closes leaves all rooms; one who has another socket stays in them, and nobody is told.
/// A socket that is not known changes nothing.
pub proof fn law_users_stay_while_they_have_a_socket(
    a: SyncEngine,
    b: SyncEngine,
    user_id: i64,
    addr: SocketAddr,
    clock: Clock,
    r: Option<Vec<SyncNotification>>,
)
    requires
        engine_wf(a),
        socket_closed(a, b, user_id, addr, clock, r),
    ensures
        ({
            let closed = UserAddr { user_id, addr };
            let left = a.user_addrs@.filter(|u: UserAddr| u != closed);
            &&& !a.user_addrs@.contains(closed) ==> b == a && r is None
            &&& a.user_addrs@.contains(closed) ==> b.user_addrs@ == left
            &&& a.user_addrs@.contains(closed) && addrs_of(left, user_id).len() > 0 ==> b.rooms == a.rooms && r
                is None
            &&& a.user_addrs@.contains(closed) && addrs_of(left, user_id).len() == 0 ==> forall|i: int|
                0 <= i < b.rooms@.len() ==> !is_member(
                    #[trigger] b.rooms@[i],
                    ParticipantId::DimUser(user_id),
                )
        }),
{
    let closed = UserAddr { user_id, addr };
    let left = a.user_addrs@.filter(|u: UserAddr| u != closed);
    if a.user_addrs@.contains(closed) && addrs_of(left, user_id).len() == 0 {
        law_left_everywhere(
            a.rooms@,
            b.rooms@,
            match r {
                Some(ns) => ns@,
                None => Seq::empty(),
            },
            left,
            ParticipantId::DimUser(user_id),
            clock,
        );
    }
}

}
