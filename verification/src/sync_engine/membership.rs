//! Connecting, creating, joining and leaving.

use vstd::prelude::*;

use crate::events::{PushEventType, Seconds};
use crate::sync_engine::engine::{
    aliases_kept, alias_at, engine_wf, find_alias, find_room, is_unique_name, lemma_change_keeps_wf,
    lemma_room_at, lets_in, name_taken, only_room_changed, opt_view, password_matches, room_at,
    same_but_participants, unique_name, RoomAlias, SyncEngine,
};
use crate::sync_engine::notices::{
    addrs_of, both, is_room_update, is_user_event, make_room_update_message,
    make_syncplay_user_event, notices_for, only_ws, sockets_of, sp_broadcast_to_room, sp_targets,
    sp_then_ws, ws_broadcast_to_room, ws_targets, SocketAddr, SyncNotification, SyncplayMessage,
    UserAddr, UserEvent, WsBroadcast,
};
use crate::sync_engine::room::{
    describes, find_seat, host_seat, is_member, lemma_host_seat, lemma_seat, room_wf, seat, Clock,
    ControlMode, ParticipantId, ParticipantKind, PlaybackState, RoomInfo, SyncParticipant, SyncRoom,
    ROOM_CODE_LEN,
};
use crate::text::{chars_of, same};

verus! {

/// The participant to become host when the host leaves: the first web user, or the first
/// participant where there is no web user.
pub open spec fn successor(ps: Seq<SyncParticipant>) -> int {
    match first_web_user(ps) {
        Some(i) => i,
        None => 0,
    }
}

/// Where the first web user stands in the list.
pub open spec fn first_web_user(ps: Seq<SyncParticipant>) -> Option<int>
    decreases ps.len(),
{
    if ps.len() == 0 {
        None
    } else {
        match first_web_user(ps.drop_last()) {
            Some(i) => Some(i),
            None => if ps.last().kind is DimUser {
                Some(ps.len() - 1)
            } else {
                None
            },
        }
    }
}

/// The participants with the one at `i` made host.
pub open spec fn promoted(ps: Seq<SyncParticipant>, i: int) -> Seq<SyncParticipant> {
    ps.update(i, SyncParticipant { is_host: true, ..ps[i] })
}

/// The participants after the one at `i` left, with a new host where that was the host.
pub open spec fn without(ps: Seq<SyncParticipant>, i: int) -> Seq<SyncParticipant> {
    let rest = ps.remove(i);
    if ps[i].is_host {
        promoted(rest, successor(rest))
    } else {
        rest
    }
}

/// `after` is the room `before` once the participant `id` has left it to others.
pub open spec fn left_room(before: SyncRoom, after: SyncRoom, id: ParticipantId) -> bool {
    &&& same_but_participants(before, after)
    &&& after.participants@ == without(before.participants@, seat(before.participants@, id)->0)
}

/// The notifications by which those who stay learn that `id` has left.
pub open spec fn farewell(
    ns: Seq<SyncNotification>,
    addrs: Seq<UserAddr>,
    before: SyncRoom,
    after: SyncRoom,
    id: ParticipantId,
    clock: Clock,
) -> bool {
    let leaving = before.participants@[seat(before.participants@, id)->0];
    sp_then_ws(
        ns,
        sp_targets(after.participants@, None),
        |m: SyncplayMessage| is_user_event(m, after, leaving, Some(UserEvent::Left)),
        ws_targets(addrs, after.participants@, None),
        |e: PushEventType| is_room_update(e, after, clock),
    )
}

/// How many notifications a farewell has.
pub open spec fn farewell_len(addrs: Seq<UserAddr>, after: SyncRoom) -> int {
    notices_for(sp_targets(after.participants@, None).len()) + notices_for(
        ws_targets(addrs, after.participants@, None).len(),
    )
}

/// The state after the participant `id` was taken out of the room at `i`: a room that is left empty
/// is gone, along with its aliases.
pub open spec fn departed(a: SyncEngine, b: SyncEngine, i: int, id: ParticipantId) -> bool {
    let room = a.rooms@[i];
    if room.participants@.len() == 1 {
        &&& b.rooms@ == a.rooms@.remove(i)
        &&& b.room_name_aliases@ == aliases_kept(
            a.room_name_aliases@,
            |al: RoomAlias| al.code@ != room.code@,
        )
        &&& b.user_addrs == a.user_addrs
        &&& b.next_conn_id == a.next_conn_id
        &&& b.syncplay_conns == a.syncplay_conns
    } else {
        only_room_changed(a, b, i) && left_room(room, b.rooms@[i], id)
    }
}

/// `after` is the room `before` once `p` has joined; one who is in it already is not added again.
pub open spec fn joined_room(before: SyncRoom, after: SyncRoom, p: SyncParticipant) -> bool {
    &&& same_but_participants(before, after)
    &&& if is_member(before, p.id) {
        after.participants@ == before.participants@
    } else {
        &&& after.participants@ == before.participants@.push(
            SyncParticipant { display_name: after.participants@.last().display_name, ..p },
        )
        &&& is_unique_name(
            before.participants@,
            p.display_name@,
            after.participants@.last().display_name@,
        )
    }
}

/// The notifications by which a room learns of somebody joining.
pub open spec fn welcome(
    ns: Seq<SyncNotification>,
    addrs: Seq<UserAddr>,
    before: SyncRoom,
    after: SyncRoom,
    id: ParticipantId,
    clock: Clock,
) -> bool {
    if is_member(before, id) {
        only_ws(
            ns,
            ws_targets(addrs, after.participants@, None),
            |e: PushEventType| is_room_update(e, after, clock),
        )
    } else {
        sp_then_ws(
            ns,
            sp_targets(after.participants@, Some(id)),
            |m: SyncplayMessage|
                is_user_event(m, after, after.participants@.last(), Some(UserEvent::Joined)),
            ws_targets(addrs, after.participants@, None),
            |e: PushEventType| is_room_update(e, after, clock),
        )
    }
}

/// `room` is a new room with one participant, its host.
pub open spec fn is_new_room(
    room: SyncRoom,
    code: Seq<char>,
    name: Seq<char>,
    media_file_id: Option<i64>,
    media_id: Option<i64>,
    media_name: String,
    creator: ParticipantId,
    display_name: String,
    kind: ParticipantKind,
    control_mode: Option<ControlMode>,
    password: Option<String>,
    clock: Clock,
) -> bool {
    &&& room.code@ == code
    &&& room.name@ == name
    &&& room.password == password
    &&& room.control_mode == (match control_mode {
        Some(mode) => mode,
        None => ControlMode::HostOnly,
    })
    &&& room.media_file_id == media_file_id
    &&& room.media_id == media_id
    &&& room.media_name == media_name
    &&& room.playback_state == PlaybackState::Paused
    &&& room.playback_position == Seconds { bits: 0 }
    &&& room.last_position_update == clock.monotonic_nanos
    &&& room.host_report_holdoff_until is None
    &&& room.participants@ == seq![
        SyncParticipant {
            id: creator,
            display_name,
            kind,
            is_host: true,
            is_ready: false,
            is_buffering: false,
            latency_ms: 0,
            file: None,
        },
    ]
    &&& room.chat_messages@.len() == 0
}

/// Where the first room with the participant `id` stands in the list.
pub open spec fn room_with(rooms: Seq<SyncRoom>, id: ParticipantId) -> Option<int>
    decreases rooms.len(),
{
    if rooms.len() == 0 {
        None
    } else {
        match room_with(rooms.drop_last(), id) {
            Some(i) => Some(i),
            None => if is_member(rooms.last(), id) {
                Some(rooms.len() - 1)
            } else {
                None
            },
        }
    }
}

/// The rooms `after` are the rooms `before` once the participant `id` has left all of them, and `ns`
/// are the farewells in the order of the rooms.
pub open spec fn all_left(
    before: Seq<SyncRoom>,
    after: Seq<SyncRoom>,
    ns: Seq<SyncNotification>,
    addrs: Seq<UserAddr>,
    id: ParticipantId,
    clock: Clock,
) -> bool
    decreases before.len(),
{
    if before.len() == 0 {
        after.len() == 0 && ns.len() == 0
    } else {
        let room = before.last();
        if !is_member(room, id) {
            &&& after.len() > 0
            &&& after.last() == room
            &&& all_left(before.drop_last(), after.drop_last(), ns, addrs, id, clock)
        } else if room.participants@.len() == 1 {
            all_left(before.drop_last(), after, ns, addrs, id, clock)
        } else {
            let k = ns.len() - farewell_len(addrs, after.last());
            &&& after.len() > 0
            &&& left_room(room, after.last(), id)
            &&& k >= 0
            &&& farewell(
                ns.subrange(k, ns.len() as int),
                addrs,
                room,
                after.last(),
                id,
                clock,
            )
            &&& all_left(
                before.drop_last(),
                after.drop_last(),
                ns.subrange(0, k),
                addrs,
                id,
                clock,
            )
        }
    }
}

/// One of the rooms is left to others when `id` leaves.
pub open spec fn somebody_stays(rooms: Seq<SyncRoom>, id: ParticipantId) -> bool {
    exists|i: int|
        0 <= i < rooms.len() && is_member(#[trigger] rooms[i], id) && rooms[i].participants@.len()
            > 1
}

/// What `successor` picks is a participant, and a web user if there is one.
pub proof fn lemma_successor(ps: Seq<SyncParticipant>)
    requires
        ps.len() > 0,
    ensures
        0 <= successor(ps) < ps.len(),
        first_web_user(ps) is None ==> forall|j: int|
            0 <= j < ps.len() ==> !((#[trigger] ps[j]).kind is DimUser),
        first_web_user(ps) matches Some(i) ==> 0 <= i < ps.len() && ps[i].kind is DimUser
            && forall|j: int| 0 <= j < i ==> !((#[trigger] ps[j]).kind is DimUser),
    decreases ps.len(),
{
    if ps.len() > 1 {
        lemma_successor(ps.drop_last());
    } else {
        assert(first_web_user(ps.drop_last()) is None);
    }
    assert forall|j: int| 0 <= j < ps.len() - 1 implies #[trigger] ps[j] == ps.drop_last()[j] by {}
}

/// Finds the participant to become host.
fn find_successor(ps: &Vec<SyncParticipant>) -> (r: usize)
    requires
        ps@.len() > 0,
    ensures
        r == successor(ps@),
        r < ps@.len(),
{
    proof {
        lemma_successor(ps@);
    }
    let ghost first = first_web_user(ps@);
    let mut i: usize = 0;
    while i < ps.len()
        invariant
            0 <= i <= ps@.len(),
            forall|j: int| 0 <= j < i ==> !((#[trigger] ps@[j]).kind is DimUser),
            first == first_web_user(ps@),
            first is None ==> forall|j: int|
                0 <= j < ps@.len() ==> !((#[trigger] ps@[j]).kind is DimUser),
            first matches Some(k) ==> 0 <= k < ps@.len() && ps@[k].kind is DimUser && forall|j: int|
                0 <= j < k ==> !((#[trigger] ps@[j]).kind is DimUser),
        decreases ps@.len() - i,
    {
        if let ParticipantKind::DimUser { .. } = ps[i].kind {
            return i;
        }
        i = i + 1;
    }
    0
}

/// A room that somebody leaves to others stays well formed.
pub proof fn lemma_left_room_wf(before: SyncRoom, after: SyncRoom, id: ParticipantId)
    requires
        room_wf(before),
        is_member(before, id),
        before.participants@.len() > 1,
        left_room(before, after, id),
    ensures
        room_wf(after),
        !is_member(after, id),
{
    let ps = before.participants@;
    let i = seat(ps, id)->0;
    lemma_seat(ps, id);
    let rest = ps.remove(i);
    lemma_successor(rest);
    lemma_host_seat(ps);
    lemma_host_seat(after.participants@);
    lemma_seat(after.participants@, id);
    let qs = after.participants@;
    assert forall|j: int| 0 <= j < qs.len() implies (#[trigger] qs[j]).id == ps[if j < i {
        j
    } else {
        j + 1
    }].id && qs[j].display_name == ps[if j < i {
        j
    } else {
        j + 1
    }].display_name by {}
    let h = host_seat(ps)->0;
    if ps[i].is_host {
        assert(qs[successor(rest)].is_host);
    } else {
        assert(h != i);
        assert(qs[if h < i {
            h
        } else {
            h - 1
        }].is_host);
    }
}

/// A room that somebody joins stays well formed.
pub proof fn lemma_joined_room_wf(before: SyncRoom, after: SyncRoom, p: SyncParticipant)
    requires
        room_wf(before),
        joined_room(before, after, p),
        !is_member(before, p.id) ==> !name_taken(
            before.participants@,
            after.participants@.last().display_name@,
        ),
    ensures
        room_wf(after),
        is_member(after, p.id),
{
    let ps = before.participants@;
    let qs = after.participants@;
    lemma_seat(ps, p.id);
    lemma_host_seat(ps);
    lemma_host_seat(qs);
    lemma_seat(qs, p.id);
    if !is_member(before, p.id) {
        assert forall|j: int| 0 <= j < ps.len() implies #[trigger] qs[j] == ps[j] by {}
        assert(qs[host_seat(ps)->0].is_host);
        assert(qs[qs.len() - 1].id == p.id);
        assert forall|j: int| 0 <= j < ps.len() implies (#[trigger] qs[j]).display_name@
            != qs.last().display_name@ by {
            assert(qs[j] == ps[j]);
        }
    }
}

/// An alias is kept if and only if `keep` holds for it.
proof fn lemma_aliases_kept(aliases: Seq<RoomAlias>, keep: spec_fn(RoomAlias) -> bool)
    ensures
        forall|i: int|
            0 <= i < aliases_kept(aliases, keep).len() ==> keep(
                #[trigger] aliases_kept(aliases, keep)[i],
            ) && aliases.contains(aliases_kept(aliases, keep)[i]),
    decreases aliases.len(),
{
    if aliases.len() > 0 {
        lemma_aliases_kept(aliases.drop_last(), keep);
        let before = aliases_kept(aliases.drop_last(), keep);
        assert forall|i: int| 0 <= i < aliases_kept(aliases, keep).len() implies keep(
            #[trigger] aliases_kept(aliases, keep)[i],
        ) && aliases.contains(aliases_kept(aliases, keep)[i]) by {
            if i < before.len() {
                let a = before[i];
                let k = choose|k: int|
                    0 <= k < aliases.drop_last().len() && aliases.drop_last()[k] == a;
                assert(aliases[k] == a);
            } else {
                assert(aliases[aliases.len() - 1] == aliases.last());
            }
        }
    }
}

/// Keeping by two conditions in turn keeps what satisfies both.
proof fn lemma_aliases_kept_twice(
    aliases: Seq<RoomAlias>,
    f: spec_fn(RoomAlias) -> bool,
    g: spec_fn(RoomAlias) -> bool,
    h: spec_fn(RoomAlias) -> bool,
)
    requires
        forall|i: int|
            0 <= i < aliases.len() ==> (h(#[trigger] aliases[i]) == (f(aliases[i]) && g(
                aliases[i],
            ))),
    ensures
        aliases_kept(aliases_kept(aliases, f), g) == aliases_kept(aliases, h),
    decreases aliases.len(),
{
    if aliases.len() > 0 {
        assert forall|i: int| 0 <= i < aliases.drop_last().len() implies (h(
            #[trigger] aliases.drop_last()[i],
        ) == (f(aliases.drop_last()[i]) && g(aliases.drop_last()[i]))) by {
            assert(aliases.drop_last()[i] == aliases[i]);
        }
        lemma_aliases_kept_twice(aliases.drop_last(), f, g, h);
        assert(aliases[aliases.len() - 1] == aliases.last());
        let before = aliases_kept(aliases.drop_last(), f);
        if f(aliases.last()) {
            assert(aliases_kept(aliases, f).drop_last() =~= before);
        }
    }
}

/// Keeping by a condition that holds of every alias keeps all of them.
proof fn lemma_all_aliases_kept(aliases: Seq<RoomAlias>, f: spec_fn(RoomAlias) -> bool)
    requires
        forall|i: int| 0 <= i < aliases.len() ==> f(#[trigger] aliases[i]),
    ensures
        aliases_kept(aliases, f) == aliases,
    decreases aliases.len(),
{
    if aliases.len() > 0 {
        assert forall|i: int| 0 <= i < aliases.drop_last().len() implies f(
            #[trigger] aliases.drop_last()[i],
        ) by {
            assert(aliases.drop_last()[i] == aliases[i]);
        }
        lemma_all_aliases_kept(aliases.drop_last(), f);
        assert(aliases[aliases.len() - 1] == aliases.last());
        assert(aliases.drop_last().push(aliases.last()) =~= aliases);
    } else {
        assert(aliases_kept(aliases, f) =~= aliases);
    }
}

/// The aliases that do not lead to the room with this code.
fn aliases_without_code(aliases: &Vec<RoomAlias>, code: &str) -> (r: Vec<RoomAlias>)
    ensures
        r@ == aliases_kept(aliases@, |al: RoomAlias| al.code@ != code@),
{
    let mut r: Vec<RoomAlias> = Vec::new();
    let ghost keep = |al: RoomAlias| al.code@ != code@;
    let mut i: usize = 0;
    assert(aliases@.subrange(0, 0) =~= Seq::empty());
    while i < aliases.len()
        invariant
            0 <= i <= aliases@.len(),
            keep == (|al: RoomAlias| al.code@ != code@),
            r@ == aliases_kept(aliases@.subrange(0, i as int), keep),
        decreases aliases@.len() - i,
    {
        assert(aliases@.subrange(0, i + 1).drop_last() =~= aliases@.subrange(0, i as int));
        if !same(aliases[i].code.as_str(), code) {
            r.push(RoomAlias { name: aliases[i].name.clone(), code: aliases[i].code.clone() });
        }
        i = i + 1;
    }
    assert(aliases@.subrange(0, i as int) =~= aliases@);
    r
}

/// The aliases other than this name.
fn aliases_without_name(aliases: &Vec<RoomAlias>, name: &str) -> (r: Vec<RoomAlias>)
    ensures
        r@ == aliases_kept(aliases@, |al: RoomAlias| al.name@ != name@),
{
    let mut r: Vec<RoomAlias> = Vec::new();
    let ghost keep = |al: RoomAlias| al.name@ != name@;
    let mut i: usize = 0;
    assert(aliases@.subrange(0, 0) =~= Seq::empty());
    while i < aliases.len()
        invariant
            0 <= i <= aliases@.len(),
            keep == (|al: RoomAlias| al.name@ != name@),
            r@ == aliases_kept(aliases@.subrange(0, i as int), keep),
        decreases aliases@.len() - i,
    {
        assert(aliases@.subrange(0, i + 1).drop_last() =~= aliases@.subrange(0, i as int));
        if !same(aliases[i].name.as_str(), name) {
            r.push(RoomAlias { name: aliases[i].name.clone(), code: aliases[i].code.clone() });
        }
        i = i + 1;
    }
    assert(aliases@.subrange(0, i as int) =~= aliases@);
    r
}

/// Taking a participant out of a room keeps the state well formed.
proof fn lemma_departed_wf(a: SyncEngine, b: SyncEngine, i: int, id: ParticipantId)
    requires
        engine_wf(a),
        0 <= i < a.rooms@.len(),
        is_member(a.rooms@[i], id),
        departed(a, b, i, id),
    ensures
        engine_wf(b),
{
    let room = a.rooms@[i];
    if room.participants@.len() == 1 {
        let keep = |al: RoomAlias| al.code@ != room.code@;
        lemma_aliases_kept(a.room_name_aliases@, keep);
        assert forall|j: int| 0 <= j < b.room_name_aliases@.len() implies room_at(
            b.rooms@,
            (#[trigger] b.room_name_aliases@[j]).code@,
        ) is Some by {
            let al = b.room_name_aliases@[j];
            assert(keep(al));
            let k = choose|k: int|
                0 <= k < a.room_name_aliases@.len() && a.room_name_aliases@[k] == al;
            assert(room_at(a.rooms@, a.room_name_aliases@[k].code@) is Some);
            lemma_room_at(a.rooms@, al.code@);
            lemma_room_at(b.rooms@, al.code@);
            let at = room_at(a.rooms@, al.code@)->0;
            assert(b.rooms@[if at < i {
                at
            } else {
                at - 1
            }] == a.rooms@[at]);
        }
        assert forall|j: int| 0 <= j < b.rooms@.len() implies #[trigger] b.rooms@[j] == a.rooms@[if j
            < i {
            j
        } else {
            j + 1
        }] by {}
    } else {
        lemma_left_room_wf(room, b.rooms@[i], id);
        lemma_change_keeps_wf(a, b, i);
    }
}

impl SyncEngine {
    /// Takes the participant out of the room at `i`. If that was the host and others remain, one of
    /// them becomes host. A room that is left empty is gone.
    fn remove_participant(&mut self, participant_id: ParticipantId, i: usize, clock: Clock) -> (r:
        Option<Vec<SyncNotification>>)
        requires
            engine_wf(*old(self)),
            i < old(self).rooms@.len(),
            is_member(old(self).rooms@[i as int], participant_id),
        ensures
            engine_wf(*final(self)),
            departed(*old(self), *final(self), i as int, participant_id),
            r is Some <==> old(self).rooms@[i as int].participants@.len() > 1,
            r matches Some(ns) ==> farewell(
                ns@,
                old(self).user_addrs@,
                old(self).rooms@[i as int],
                final(self).rooms@[i as int],
                participant_id,
                clock,
            ),
    {
        let ghost before = *self;
        let ghost room0 = self.rooms@[i as int];
        proof {
            lemma_seat(room0.participants@, participant_id);
            assert(room_wf(room0));
        }
        let at: usize = match find_seat(&self.rooms[i].participants, participant_id) {
            Some(at) => at,
            None => 0,
        };
        if self.rooms[i].participants.len() == 1 {
            let room = self.rooms.remove(i);
            self.room_name_aliases = aliases_without_code(
                &self.room_name_aliases,
                room.code.as_str(),
            );
            proof {
                assert(self.rooms@ =~= before.rooms@.remove(i as int));
                lemma_departed_wf(before, *self, i as int, participant_id);
            }
            return None;
        }
        let mut room = self.rooms.remove(i);
        let leaving = room.participants.remove(at);
        if leaving.is_host {
            let next = find_successor(&room.participants);
            let ghost rest = room.participants@;
            room.participants[next].is_host = true;
            assert(room.participants@ =~= promoted(rest, successor(rest)));
        }
        let sp_msg = make_syncplay_user_event(&room, &leaving, Some(UserEvent::Left));
        let told_sp = sp_broadcast_to_room(&room, sp_msg, None);
        let ws_msg = make_room_update_message(&room, clock);
        let told_ws = ws_broadcast_to_room(&self.user_addrs, &room, ws_msg, None);
        let notifs = both(told_sp, told_ws);
        self.rooms.insert(i, room);
        proof {
            assert(leaving == room0.participants@[at as int]);
            assert(left_room(room0, room, participant_id));
            assert(self.rooms@[i as int] == room);
            assert forall|j: int| 0 <= j < before.rooms@.len() && j != i implies #[trigger] self.rooms@[j]
                == before.rooms@[j] by {}
            lemma_departed_wf(before, *self, i as int, participant_id);
        }
        Some(notifs)
    }
}

/// The code is six characters of the code alphabet, in which no letter or digit is easily taken for
/// another.
pub open spec fn is_room_code(code: Seq<char>) -> bool {
    &&& code.len() == ROOM_CODE_LEN
    &&& forall|i: int|
        0 <= i < code.len() ==> "ABCDEFGHJKLMNPQRSTUVWXYZ23456789"@.contains(#[trigger] code[i])
}

/// `rand::Rng::gen_range` of the thread's generator, over the numbers from 0 up to `n`. Which of
/// them comes is up to chance.
#[verifier::external_body]
fn random_below(n: usize) -> (r: usize)
    requires
        0 < n,
    ensures
        r < n,
{
    rand::Rng::gen_range(&mut rand::thread_rng(), 0..n)
}

/// Draws a room code.
pub fn generate_room_code() -> (r: String)
    ensures
        is_room_code(r@),
{
    proof {
        reveal_strlit("ABCDEFGHJKLMNPQRSTUVWXYZ23456789");
    }
    let alphabet = chars_of("ABCDEFGHJKLMNPQRSTUVWXYZ23456789");
    let mut code = String::new();
    let mut i: usize = 0;
    while i < ROOM_CODE_LEN
        invariant
            0 <= i <= ROOM_CODE_LEN,
            alphabet@ == "ABCDEFGHJKLMNPQRSTUVWXYZ23456789"@,
            alphabet@.len() == 32,
            code@.len() == i,
            forall|j: int| 0 <= j < i ==> alphabet@.contains(#[trigger] code@[j]),
        decreases ROOM_CODE_LEN - i,
    {
        let k = random_below(alphabet.len());
        code.push(alphabet[k]);
        assert(alphabet@[k as int] == code@[i as int]);
        i = i + 1;
    }
    code
}

/// How many room codes there are.
pub const ROOM_CODES: u32 = 0x4000_0000;

/// Some room code is not that of a room.
pub open spec fn code_is_free(rooms: Seq<SyncRoom>) -> bool {
    exists|code: Seq<char>| #[trigger] is_room_code(code) && room_at(rooms, code) is None
}

/// The characters of room codes, in their order.
spec fn code_chars() -> Seq<char> {
    "ABCDEFGHJKLMNPQRSTUVWXYZ23456789"@
}

/// How many texts of `n` characters of room codes there are.
spec fn texts_of(n: nat) -> int
    decreases n,
{
    if n == 0 {
        1
    } else {
        32 * texts_of((n - 1) as nat)
    }
}

/// The `k`th text of `n` characters of room codes.
spec fn numbered(k: int, n: nat) -> Seq<char>
    decreases n,
{
    if n == 0 {
        Seq::empty()
    } else {
        numbered(k / 32, (n - 1) as nat).push(code_chars()[k % 32])
    }
}

/// Which of the texts of its length a text of characters of room codes is.
spec fn number_of(text: Seq<char>) -> int
    decreases text.len(),
{
    if text.len() == 0 {
        0
    } else {
        32 * number_of(text.drop_last()) + code_chars().index_of(text.last())
    }
}

/// The characters of room codes are 32, and differ.
proof fn lemma_code_chars()
    ensures
        code_chars().len() == 32,
        code_chars().no_duplicates(),
{
    reveal_strlit("ABCDEFGHJKLMNPQRSTUVWXYZ23456789");
    let place = |c: char|
        if c <= '9' {
            c as int - '2' as int + 24
        } else if c <= 'H' {
            c as int - 'A' as int
        } else if c <= 'N' {
            c as int - 'J' as int + 8
        } else {
            c as int - 'P' as int + 13
        };
    assert forall|i: int| 0 <= i < 32 implies place(#[trigger] code_chars()[i]) == i by {}
    assert forall|i: int, j: int| 0 <= i < 32 && 0 <= j < 32 && i != j implies code_chars()[i]
        != code_chars()[j] by {
        assert(place(code_chars()[i]) == i);
        assert(place(code_chars()[j]) == j);
    }
}

/// Every text of characters of room codes has its number.
proof fn lemma_texts_are_numbered(text: Seq<char>)
    requires
        forall|i: int| 0 <= i < text.len() ==> code_chars().contains(#[trigger] text[i]),
    ensures
        0 <= number_of(text) < texts_of(text.len()),
        numbered(number_of(text), text.len()) == text,
    decreases text.len(),
{
    lemma_code_chars();
    if text.len() > 0 {
        let rest = text.drop_last();
        assert forall|i: int| 0 <= i < rest.len() implies code_chars().contains(#[trigger] rest[i]) by {
            assert(rest[i] == text[i]);
        }
        lemma_texts_are_numbered(rest);
        let d = code_chars().index_of(text.last());
        assert(code_chars().contains(text[text.len() - 1]));
        let n = number_of(text);
        assert(n / 32 == number_of(rest) && n % 32 == d);
        assert(rest.push(text.last()) =~= text);
    } else {
        assert(text =~= Seq::empty());
    }
}

/// Every number has its text, which no other number has.
proof fn lemma_numbers_have_texts(k: int, n: nat)
    requires
        0 <= k < texts_of(n),
    ensures
        numbered(k, n).len() == n,
        forall|i: int| 0 <= i < n ==> code_chars().contains(#[trigger] numbered(k, n)[i]),
        number_of(numbered(k, n)) == k,
    decreases n,
{
    lemma_code_chars();
    if n > 0 {
        let rest = numbered(k / 32, (n - 1) as nat);
        let text = numbered(k, n);
        lemma_numbers_have_texts(k / 32, (n - 1) as nat);
        assert(text.drop_last() =~= rest);
        let c = code_chars()[k % 32];
        assert(code_chars().contains(c));
        let d = code_chars().index_of(c);
        assert(code_chars()[d] == c);
        assert(d == k % 32);
        assert forall|i: int| 0 <= i < n implies code_chars().contains(#[trigger] text[i]) by {
            if i < n - 1 {
                assert(text[i] == rest[i]);
            }
        }
    }
}

/// There are as many texts of the length of a room code as there are room codes.
proof fn lemma_room_codes()
    ensures
        texts_of(ROOM_CODE_LEN as nat) == ROOM_CODES,
{
    reveal_with_fuel(texts_of, 7);
}

/// Makes the `k`th text of `n` characters of room codes.
fn numbered_text(k: u32, n: usize) -> (r: String)
    ensures
        r@ == numbered(k as int, n as nat),
    decreases n,
{
    if n == 0 {
        return String::new();
    }
    proof {
        lemma_code_chars();
    }
    let alphabet = chars_of("ABCDEFGHJKLMNPQRSTUVWXYZ23456789");
    let mut text = numbered_text(k / 32, n - 1);
    text.push(alphabet[(k % 32) as usize]);
    text
}

/// As long as there are fewer rooms than room codes, a code is free.
pub proof fn law_few_rooms_leave_a_code(rooms: Seq<SyncRoom>)
    requires
        rooms.len() < ROOM_CODES,
    ensures
        code_is_free(rooms),
{
    if !code_is_free(rooms) {
        let n = ROOM_CODE_LEN as nat;
        let numbers = vstd::set_lib::set_int_range(0, ROOM_CODES as int);
        let places = vstd::set_lib::set_int_range(0, rooms.len() as int);
        let f = |k: int| room_at(rooms, numbered(k, n))->0;
        lemma_room_codes();
        vstd::set_lib::lemma_int_range(0, ROOM_CODES as int);
        vstd::set_lib::lemma_int_range(0, rooms.len() as int);
        assert forall|k: int| #[trigger] numbers.contains(k) implies {
            let code = numbered(k, n);
            &&& number_of(code) == k
            &&& room_at(rooms, code) is Some
            &&& 0 <= f(k) < rooms.len()
            &&& rooms[f(k)].code@ == code
        } by {
            lemma_numbers_have_texts(k, n);
            assert(is_room_code(numbered(k, n)));
            lemma_room_at(rooms, numbered(k, n));
        }
        assert forall|j: int, k: int| #![trigger f(j), f(k)] numbers.contains(j) && numbers.contains(k)
            && f(j) == f(k) implies j == k by {
            assert(number_of(numbered(j, n)) == j);
            assert(number_of(numbered(k, n)) == k);
        }
        assert forall|i: int| numbers.map(f).contains(i) implies places.contains(i) by {
            let k = choose|k: int| numbers.contains(k) && f(k) == i;
            assert(0 <= f(k) < rooms.len());
        }
        vstd::set_lib::lemma_map_size(numbers, numbers.map(f), f);
        vstd::set_lib::lemma_len_subset(numbers.map(f), places);
        assert(false);
    }
}

/// What one notification amounts to for one receiver.
#[derive(Debug)]
pub enum Delivery<'a> {
    /// A broadcast for the web server.
    WebSocket(&'a WsBroadcast),
    /// A message for one Syncplay connection.
    Syncplay(u64, &'a SyncplayMessage),
}

/// The deliveries for one notification: a web socket broadcast as it is, a Syncplay message once for
/// each of its connections that is registered.
pub open spec fn deliveries_for<'a>(n: &'a SyncNotification, conns: Seq<u64>) -> Seq<Delivery<'a>> {
    match n {
        SyncNotification::WebSocket(b) => seq![Delivery::WebSocket(b)],
        SyncNotification::Syncplay(b) => registered(b.conn_ids@, conns).map_values(
            |c: u64| Delivery::Syncplay(c, &b.message),
        ),
    }
}

/// The connections among `ids` that are registered.
pub open spec fn registered(ids: Seq<u64>, conns: Seq<u64>) -> Seq<u64> {
    ids.filter(|c: u64| conns.contains(c))
}

/// Holds of every connection but one.
pub open spec fn other_than(conn_id: u64) -> spec_fn(u64) -> bool {
    |c: u64| c != conn_id
}

/// The deliveries for several notifications, in their order.
pub open spec fn all_deliveries<'a>(ns: Seq<SyncNotification>, conns: Seq<u64>) -> Seq<Delivery<'a>>
    decreases ns.len(),
{
    if ns.len() == 0 {
        Seq::empty()
    } else {
        all_deliveries(ns.drop_last(), conns) + deliveries_for(&ns.last(), conns)
    }
}

/// Whether the list has the number.
fn contains_u64(v: &Vec<u64>, x: u64) -> (r: bool)
    ensures
        r == v@.contains(x),
{
    let mut i: usize = 0;
    while i < v.len()
        invariant
            0 <= i <= v@.len(),
            forall|j: int| 0 <= j < i ==> v@[j] != x,
        decreases v@.len() - i,
    {
        if v[i] == x {
            return true;
        }
        i = i + 1;
    }
    false
}

impl SyncEngine {
    /// An engine without rooms.
    pub fn new() -> (r: Self)
        ensures
            engine_wf(r),
            r.rooms@.len() == 0,
            r.user_addrs@.len() == 0,
            r.room_name_aliases@.len() == 0,
            r.next_conn_id == 0,
            r.syncplay_conns@.len() == 0,
    {
        SyncEngine {
            rooms: Vec::new(),
            user_addrs: Vec::new(),
            room_name_aliases: Vec::new(),
            next_conn_id: 0,
            syncplay_conns: Vec::new(),
        }
    }

    /// Adds a web socket of a user.
    pub fn register_user_addr(&mut self, user_id: i64, addr: SocketAddr)
        ensures
            final(self).user_addrs@ == (if old(self).user_addrs@.contains(
                UserAddr { user_id, addr },
            ) {
                old(self).user_addrs@
            } else {
                old(self).user_addrs@.push(UserAddr { user_id, addr })
            }),
            final(self).rooms == old(self).rooms,
            final(self).room_name_aliases == old(self).room_name_aliases,
            final(self).next_conn_id == old(self).next_conn_id,
            final(self).syncplay_conns == old(self).syncplay_conns,
    {
        let entry = UserAddr { user_id, addr };
        let mut i: usize = 0;
        while i < self.user_addrs.len()
            invariant
                *self == *old(self),
                entry == (UserAddr { user_id, addr }),
                0 <= i <= self.user_addrs@.len(),
                forall|j: int| 0 <= j < i ==> self.user_addrs@[j] != entry,
            decreases self.user_addrs@.len() - i,
        {
            if self.user_addrs[i] == entry {
                return;
            }
            i = i + 1;
        }
        self.user_addrs.push(entry);
    }

    /// Forgets every web socket of a user.
    pub fn unregister_user_addr(&mut self, user_id: i64)
        ensures
            final(self).user_addrs@ == old(self).user_addrs@.filter(
                |u: UserAddr| u.user_id != user_id,
            ),
            final(self).rooms == old(self).rooms,
            final(self).room_name_aliases == old(self).room_name_aliases,
            final(self).next_conn_id == old(self).next_conn_id,
            final(self).syncplay_conns == old(self).syncplay_conns,
    {
        let mut kept: Vec<UserAddr> = Vec::new();
        let ghost f = |u: UserAddr| u.user_id != user_id;
        let mut i: usize = 0;
        proof {
            reveal(Seq::filter);
            assert(self.user_addrs@.subrange(0, 0) =~= Seq::empty());
        }
        while i < self.user_addrs.len()
            invariant
                *self == *old(self),
                0 <= i <= self.user_addrs@.len(),
                f == (|u: UserAddr| u.user_id != user_id),
                kept@ == self.user_addrs@.subrange(0, i as int).filter(f),
            decreases self.user_addrs@.len() - i,
        {
            proof {
                reveal(Seq::filter);
                assert(self.user_addrs@.subrange(0, i + 1).drop_last()
                    =~= self.user_addrs@.subrange(0, i as int));
            }
            if self.user_addrs[i].user_id != user_id {
                kept.push(self.user_addrs[i]);
            }
            i = i + 1;
        }
        assert(self.user_addrs@.subrange(0, i as int) =~= self.user_addrs@);
        self.user_addrs = kept;
    }

    /// Hands out a connection id that was not handed out before.
    pub fn allocate_conn_id(&mut self) -> (r: u64)
        requires
            old(self).next_conn_id < u64::MAX,
        ensures
            r == old(self).next_conn_id,
            final(self).next_conn_id == r + 1,
            final(self).rooms == old(self).rooms,
            final(self).user_addrs == old(self).user_addrs,
            final(self).room_name_aliases == old(self).room_name_aliases,
            final(self).syncplay_conns == old(self).syncplay_conns,
    {
        let id = self.next_conn_id;
        self.next_conn_id = id + 1;
        id
    }

    /// Makes a Syncplay connection known.
    pub fn register_syncplay_conn(&mut self, conn_id: u64)
        ensures
            final(self).syncplay_conns@ == (if old(self).syncplay_conns@.contains(conn_id) {
                old(self).syncplay_conns@
            } else {
                old(self).syncplay_conns@.push(conn_id)
            }),
            final(self).rooms == old(self).rooms,
            final(self).user_addrs == old(self).user_addrs,
            final(self).room_name_aliases == old(self).room_name_aliases,
            final(self).next_conn_id == old(self).next_conn_id,
    {
        if !contains_u64(&self.syncplay_conns, conn_id) {
            self.syncplay_conns.push(conn_id);
        }
    }

    /// Forgets a Syncplay connection.
    pub fn unregister_syncplay_conn(&mut self, conn_id: u64)
        ensures
            final(self).syncplay_conns@ == old(self).syncplay_conns@.filter(other_than(conn_id)),
            final(self).rooms == old(self).rooms,
            final(self).user_addrs == old(self).user_addrs,
            final(self).room_name_aliases == old(self).room_name_aliases,
            final(self).next_conn_id == old(self).next_conn_id,
    {
        let mut kept: Vec<u64> = Vec::new();
        let ghost f = other_than(conn_id);
        let mut i: usize = 0;
        proof {
            reveal(Seq::filter);
            assert(self.syncplay_conns@.subrange(0, 0) =~= Seq::empty());
        }
        while i < self.syncplay_conns.len()
            invariant
                *self == *old(self),
                0 <= i <= self.syncplay_conns@.len(),
                f == other_than(conn_id),
                kept@ == self.syncplay_conns@.subrange(0, i as int).filter(f),
            decreases self.syncplay_conns@.len() - i,
        {
            proof {
                reveal(Seq::filter);
                assert(self.syncplay_conns@.subrange(0, i + 1).drop_last()
                    =~= self.syncplay_conns@.subrange(0, i as int));
            }
            if self.syncplay_conns[i] != conn_id {
                kept.push(self.syncplay_conns[i]);
            }
            i = i + 1;
        }
        assert(self.syncplay_conns@.subrange(0, i as int) =~= self.syncplay_conns@);
        self.syncplay_conns = kept;
    }

    /// Says who gets what, for both transports.
    pub fn dispatch<'a>(&self, notifs: &'a Vec<SyncNotification>) -> (r: Vec<Delivery<'a>>)
        ensures
            r@ == all_deliveries(notifs@, self.syncplay_conns@),
    {
        let mut r: Vec<Delivery<'a>> = Vec::new();
        let mut i: usize = 0;
        let ghost conns = self.syncplay_conns@;
        assert(notifs@.subrange(0, 0) =~= Seq::empty());
        while i < notifs.len()
            invariant
                0 <= i <= notifs@.len(),
                conns == self.syncplay_conns@,
                r@ == all_deliveries(notifs@.subrange(0, i as int), conns),
            decreases notifs@.len() - i,
        {
            proof {
                assert(notifs@.subrange(0, i + 1).drop_last() =~= notifs@.subrange(0, i as int));
                assert(notifs@.subrange(0, i + 1).last() == notifs@[i as int]);
            }
            let ghost before = r@;
            match &notifs[i] {
                SyncNotification::WebSocket(b) => {
                    r.push(Delivery::WebSocket(b));
                    assert(r@ =~= before + deliveries_for(&notifs@[i as int], conns));
                },
                SyncNotification::Syncplay(b) => {
                    let mut k: usize = 0;
                    let ghost ids = b.conn_ids@;
                    let ghost f = |c: u64| conns.contains(c);
                    let ghost g = |c: u64| Delivery::Syncplay(c, &b.message);
                    proof {
                        reveal(Seq::filter);
                        assert(ids.subrange(0, 0) =~= Seq::empty());
                        assert(r@ =~= before + ids.subrange(0, 0).filter(f).map_values(g));
                    }
                    while k < b.conn_ids.len()
                        invariant
                            0 <= k <= ids.len(),
                            ids == b.conn_ids@,
                            conns == self.syncplay_conns@,
                            f == (|c: u64| conns.contains(c)),
                            g == (|c: u64| Delivery::Syncplay(c, &b.message)),
                            r@ == before + ids.subrange(0, k as int).filter(f).map_values(g),
                        decreases ids.len() - k,
                    {
                        let ghost so_far = ids.subrange(0, k as int).filter(f);
                        let ghost r0 = r@;
                        proof {
                            reveal(Seq::filter);
                            assert(ids.subrange(0, k + 1).drop_last() =~= ids.subrange(0, k as int));
                        }
                        if contains_u64(&self.syncplay_conns, b.conn_ids[k]) {
                            r.push(Delivery::Syncplay(b.conn_ids[k], &b.message));
                            assert(so_far.push(ids[k as int]).map_values(g) =~= so_far.map_values(
                                g,
                            ).push(g(ids[k as int])));
                            assert(r@ =~= before + so_far.push(ids[k as int]).map_values(g));
                        }
                        k = k + 1;
                    }
                    assert(ids.subrange(0, k as int) =~= ids);
                },
            }
            i = i + 1;
        }
        assert(notifs@.subrange(0, i as int) =~= notifs@);
        r
    }

    /// What is known of a room.
    pub fn get_room_info(&self, code: &str, clock: Clock) -> (r: Option<RoomInfo>)
        ensures
            r is Some <==> room_at(self.rooms@, code@) is Some,
            r matches Some(info) ==> describes(
                info,
                self.rooms@[room_at(self.rooms@, code@)->0],
                clock,
            ),
    {
        match find_room(&self.rooms, code) {
            Some(i) => Some(self.rooms[i].to_info(clock)),
            None => None,
        }
    }

    /// The user list of a room.
    pub fn syncplay_list(&self, code: &str, clock: Clock) -> (r: Option<SyncplayMessage>)
        ensures
            r is Some <==> room_at(self.rooms@, code@) is Some,
            r matches Some(m) ==> crate::sync_engine::notices::is_list(
                m,
                self.rooms@[room_at(self.rooms@, code@)->0],
                clock,
            ),
    {
        match find_room(&self.rooms, code) {
            Some(i) => Some(
                crate::sync_engine::notices::make_syncplay_list(&self.rooms[i], clock),
            ),
            None => None,
        }
    }

    /// What is known of all rooms.
    pub fn list_rooms(&self, clock: Clock) -> (r: Vec<RoomInfo>)
        ensures
            r@.len() == self.rooms@.len(),
            forall|i: int| 0 <= i < r@.len() ==> describes(#[trigger] r@[i], self.rooms@[i], clock),
    {
        let mut r: Vec<RoomInfo> = Vec::new();
        let mut i: usize = 0;
        while i < self.rooms.len()
            invariant
                0 <= i <= self.rooms@.len(),
                r@.len() == i,
                forall|j: int| 0 <= j < i ==> describes(#[trigger] r@[j], self.rooms@[j], clock),
            decreases self.rooms@.len() - i,
        {
            r.push(self.rooms[i].to_info(clock));
            i = i + 1;
        }
        r
    }

    /// Draws codes until one is free. The draws are bounded, so that they end where all codes are taken;
    /// where they run out, the codes are gone through in their order. None is found only where none is
    /// free.
    pub fn fresh_room_code(&self) -> (r: Option<String>)
        ensures
            r is Some <==> code_is_free(self.rooms@),
            self.rooms@.len() < ROOM_CODES ==> r is Some,
            r matches Some(code) ==> is_room_code(code@) && room_at(self.rooms@, code@) is None,
    {
        proof {
            if self.rooms@.len() < ROOM_CODES {
                law_few_rooms_leave_a_code(self.rooms@);
            }
            lemma_room_codes();
        }
        let mut tries: u64 = 0;
        while tries < u64::MAX
            decreases u64::MAX - tries,
        {
            let code = generate_room_code();
            if find_room(&self.rooms, code.as_str()).is_none() {
                return Some(code);
            }
            tries = tries + 1;
        }
        let mut k: u32 = 0;
        while k < ROOM_CODES
            invariant
                0 <= k <= ROOM_CODES,
                texts_of(ROOM_CODE_LEN as nat) == ROOM_CODES,
                forall|j: int|
                    0 <= j < k ==> room_at(
                        self.rooms@,
                        #[trigger] numbered(j, ROOM_CODE_LEN as nat),
                    ) is Some,
            decreases ROOM_CODES - k,
        {
            let code = numbered_text(k, ROOM_CODE_LEN);
            if find_room(&self.rooms, code.as_str()).is_none() {
                proof {
                    lemma_numbers_have_texts(k as int, ROOM_CODE_LEN as nat);
                    assert(is_room_code(code@));
                }
                return Some(code);
            }
            k = k + 1;
        }
        proof {
            assert forall|code: Seq<char>| #[trigger]
                is_room_code(code) implies room_at(self.rooms@, code) is Some by {
                lemma_texts_are_numbered(code);
                assert(numbered(number_of(code), ROOM_CODE_LEN as nat) == code);
            }
        }
        None
    }

    /// Creates a room under a code that is free. Its name is the code where none is given.
    pub fn create_room_with_code(
        &mut self,
        code: String,
        media_file_id: Option<i64>,
        media_id: Option<i64>,
        media_name: String,
        creator: ParticipantId,
        display_name: String,
        kind: ParticipantKind,
        control_mode: Option<ControlMode>,
        password: Option<String>,
        room_name: Option<String>,
        clock: Clock,
    ) -> (r: RoomInfo)
        requires
            engine_wf(*old(self)),
            room_at(old(self).rooms@, code@) is None,
        ensures
            engine_wf(*final(self)),
            created(
                *old(self),
                *final(self),
                code@,
                match room_name {
                    Some(name) => name@,
                    None => code@,
                },
            ),
            is_new_room(
                final(self).rooms@.last(),
                code@,
                match room_name {
                    Some(name) => name@,
                    None => code@,
                },
                media_file_id,
                media_id,
                media_name,
                creator,
                display_name,
                kind,
                control_mode,
                password,
                clock,
            ),
            describes(r, final(self).rooms@.last(), clock),
    {
        let ghost before = *self;
        let name = match room_name {
            Some(name) => name,
            None => code.clone(),
        };
        let control_mode = match control_mode {
            Some(mode) => mode,
            None => ControlMode::HostOnly,
        };
        let mut participants: Vec<SyncParticipant> = Vec::new();
        participants.push(
            SyncParticipant {
                id: creator,
                display_name,
                kind,
                is_host: true,
                is_ready: false,
                is_buffering: false,
                latency_ms: 0,
                file: None,
            },
        );
        let room = SyncRoom {
            code: code.clone(),
            name: name.clone(),
            password,
            control_mode,
            media_file_id,
            media_id,
            media_name,
            playback_state: PlaybackState::Paused,
            playback_position: Seconds { bits: 0 },
            last_position_update: clock.monotonic_nanos,
            host_report_holdoff_until: None,
            participants,
            chat_messages: Vec::new(),
        };
        let info = room.to_info(clock);
        self.room_name_aliases = aliases_without_name(&self.room_name_aliases, name.as_str());
        self.room_name_aliases.push(RoomAlias { name, code });
        self.rooms.push(room);
        proof {
            assert(room.participants@ =~= seq![room.participants@[0]]);
            lemma_created_wf(before, *self, code@);
        }
        info
    }

    /// Creates a room under a code drawn at random.
    pub fn create_room(
        &mut self,
        media_file_id: Option<i64>,
        media_id: Option<i64>,
        media_name: String,
        creator: ParticipantId,
        display_name: String,
        kind: ParticipantKind,
        control_mode: Option<ControlMode>,
        password: Option<String>,
        clock: Clock,
    ) -> (r: Option<RoomInfo>)
        requires
            engine_wf(*old(self)),
        ensures
            engine_wf(*final(self)),
            r is Some <==> code_is_free(old(self).rooms@),
            old(self).rooms@.len() < ROOM_CODES ==> r is Some,
            r is None ==> *final(self) == *old(self),
            r matches Some(info) ==> {
                let room = final(self).rooms@.last();
                &&& is_room_code(room.code@)
                &&& room_at(old(self).rooms@, room.code@) is None
                &&& created(*old(self), *final(self), room.code@, room.code@)
                &&& is_new_room(
                    room,
                    room.code@,
                    room.code@,
                    media_file_id,
                    media_id,
                    media_name,
                    creator,
                    display_name,
                    kind,
                    control_mode,
                    password,
                    clock,
                )
                &&& describes(info, room, clock)
            },
    {
        match self.fresh_room_code() {
            Some(code) => Some(
                self.create_room_with_code(
                    code,
                    media_file_id,
                    media_id,
                    media_name,
                    creator,
                    display_name,
                    kind,
                    control_mode,
                    password,
                    None,
                    clock,
                ),
            ),
            None => None,
        }
    }
}

/// `b` is the state `a` with one more room, which can be joined by its name.
pub open spec fn created(a: SyncEngine, b: SyncEngine, code: Seq<char>, name: Seq<char>) -> bool {
    &&& b.rooms@.len() == a.rooms@.len() + 1
    &&& b.rooms@.drop_last() == a.rooms@
    &&& b.room_name_aliases@.len() > 0
    &&& b.room_name_aliases@.last().name@ == name
    &&& b.room_name_aliases@.last().code@ == code
    &&& b.room_name_aliases@.drop_last() == aliases_kept(
        a.room_name_aliases@,
        |al: RoomAlias| al.name@ != name,
    )
    &&& b.user_addrs == a.user_addrs
    &&& b.next_conn_id == a.next_conn_id
    &&& b.syncplay_conns == a.syncplay_conns
}

/// Creating a room keeps the state well formed.
proof fn lemma_created_wf(a: SyncEngine, b: SyncEngine, code: Seq<char>)
    requires
        engine_wf(a),
        room_at(a.rooms@, code) is None,
        b.rooms@.len() == a.rooms@.len() + 1,
        b.rooms@.drop_last() =~= a.rooms@,
        b.rooms@.last().code@ == code,
        b.rooms@.last().participants@.len() == 1,
        b.rooms@.last().participants@[0].is_host,
        b.rooms@.last().chat_messages@.len() == 0,
        b.room_name_aliases@.len() > 0,
        b.room_name_aliases@.last().code@ == code,
        b.room_name_aliases@.drop_last() =~= aliases_kept(
            a.room_name_aliases@,
            |al: RoomAlias| al.name@ != b.room_name_aliases@.last().name@,
        ),
    ensures
        engine_wf(b),
        b.rooms@.drop_last() == a.rooms@,
        b.room_name_aliases@.drop_last() == aliases_kept(
            a.room_name_aliases@,
            |al: RoomAlias| al.name@ != b.room_name_aliases@.last().name@,
        ),
{
    let keep = |al: RoomAlias| al.name@ != b.room_name_aliases@.last().name@;
    lemma_aliases_kept(a.room_name_aliases@, keep);
    lemma_room_at(a.rooms@, code);
    lemma_host_seat(b.rooms@.last().participants@);
    assert forall|j: int| 0 <= j < a.rooms@.len() implies #[trigger] b.rooms@[j] == a.rooms@[j] by {
        assert(b.rooms@.drop_last()[j] == b.rooms@[j]);
    }
    assert forall|j: int| 0 <= j < b.room_name_aliases@.len() implies room_at(
        b.rooms@,
        (#[trigger] b.room_name_aliases@[j]).code@,
    ) is Some by {
        let al = b.room_name_aliases@[j];
        lemma_room_at(b.rooms@, al.code@);
        if j < b.room_name_aliases@.len() - 1 {
            assert(al == b.room_name_aliases@.drop_last()[j]);
            let k = choose|k: int|
                0 <= k < a.room_name_aliases@.len() && a.room_name_aliases@[k] == al;
            assert(room_at(a.rooms@, a.room_name_aliases@[k].code@) is Some);
            lemma_room_at(a.rooms@, al.code@);
        }
    }
}

/// What joining a room by its code does: the states before and after, and the result.
pub open spec fn room_joined(
    a: SyncEngine,
    b: SyncEngine,
    participant: SyncParticipant,
    code: Seq<char>,
    password: Option<Seq<char>>,
    clock: Clock,
    r: Result<(RoomInfo, Vec<SyncNotification>), &'static str>,
) -> bool {
    match room_at(a.rooms@, code) {
        None => r matches Err(e) && e@ == "Room not found"@ && b == a,
        Some(i) => {
            let before = a.rooms@[i];
            let after = b.rooms@[i];
            if !lets_in(before, password) {
                r matches Err(e) && e@ == "Invalid password"@ && b == a
            } else {
                &&& only_room_changed(a, b, i)
                &&& joined_room(before, after, participant)
                &&& r is Ok
                &&& r matches Ok(p) ==> describes(p.0, after, clock) && welcome(
                    p.1@,
                    a.user_addrs@,
                    before,
                    after,
                    participant.id,
                    clock,
                )
            }
        },
    }
}

/// What leaving a room does: the states before and after, and the result.
pub open spec fn room_left(
    a: SyncEngine,
    b: SyncEngine,
    participant_id: ParticipantId,
    code: Seq<char>,
    clock: Clock,
    r: Result<Option<Vec<SyncNotification>>, &'static str>,
) -> bool {
    match room_at(a.rooms@, code) {
        None => r matches Err(e) && e@ == "Room not found"@ && b == a,
        Some(i) => {
            let before = a.rooms@[i];
            if !is_member(before, participant_id) {
                &&& r matches Ok(ns) && ns is None
                &&& b == a
            } else {
                &&& departed(a, b, i, participant_id)
                &&& r matches Ok(ns) && (ns is Some <==> before.participants@.len() > 1)
                &&& r matches Ok(Some(ns)) ==> farewell(
                    ns@,
                    a.user_addrs@,
                    before,
                    b.rooms@[i],
                    participant_id,
                    clock,
                )
            }
        },
    }
}

/// What joining by name does: the states before and after, and the result.
pub open spec fn joined_by_name(
    a: SyncEngine,
    b: SyncEngine,
    participant: SyncParticipant,
    room_name: Seq<char>,
    password: Option<Seq<char>>,
    clock: Clock,
    r: Result<(String, RoomInfo, Vec<SyncNotification>), &'static str>,
) -> bool {
    match code_for(a, room_name) {
        Some(code) => {
            let i = room_at(a.rooms@, code)->0;
            let before = a.rooms@[i];
            let after = b.rooms@[i];
            &&& room_at(a.rooms@, code) is Some
            &&& if !lets_in(before, password) {
                r matches Err(e) && e@ == "Invalid password"@ && b == a
            } else {
                &&& only_room_changed(a, b, i)
                &&& joined_room(before, after, participant)
                &&& r is Ok
                &&& r matches Ok(p) ==> p.0@ == code && describes(p.1, after, clock)
                    && welcome(
                    p.2@,
                    a.user_addrs@,
                    before,
                    after,
                    participant.id,
                    clock,
                )
            }
        },
        None => match r {
            Err(e) => e@ == "No room code is free"@ && !code_is_free(a.rooms@) && b == a,
            Ok(p) => {
                let room = b.rooms@.last();
                &&& is_room_code(p.0@)
                &&& room_at(a.rooms@, p.0@) is None
                &&& created(a, b, p.0@, room_name)
                &&& is_new_room(
                    room,
                    p.0@,
                    room_name,
                    None,
                    None,
                    room.media_name,
                    participant.id,
                    participant.display_name,
                    participant.kind,
                    Some(ControlMode::Egalitarian),
                    None,
                    clock,
                )
                &&& room.media_name@ == room_name
                &&& describes(p.1, room, clock)
                &&& p.2@.len() == 0
            },
        },
    }
}

/// What a dropped connection does: the states before and after, and the result.
pub open spec fn disconnected(
    a: SyncEngine,
    b: SyncEngine,
    participant_id: ParticipantId,
    clock: Clock,
    r: Option<Vec<SyncNotification>>,
) -> bool {
    match room_with(a.rooms@, participant_id) {
        None => r is None && b == a,
        Some(i) => {
            let before = a.rooms@[i];
            &&& departed(a, b, i, participant_id)
            &&& r is Some <==> before.participants@.len() > 1
            &&& r matches Some(ns) ==> farewell(
                ns@,
                a.user_addrs@,
                before,
                b.rooms@[i],
                participant_id,
                clock,
            )
        },
    }
}

impl SyncEngine {
    /// Joins a room by its code. A display name that is taken gets a number.
    pub fn join_room(
        &mut self,
        participant: SyncParticipant,
        code: &str,
        password: Option<&str>,
        clock: Clock,
    ) -> (r: Result<(RoomInfo, Vec<SyncNotification>), &'static str>)
        requires
            engine_wf(*old(self)),
        ensures
            engine_wf(*final(self)),
            room_joined(*old(self), *final(self), participant, code@, opt_view(password), clock, r),
    {
        let ghost start = *self;
        let i: usize = match find_room(&self.rooms, code) {
            Some(i) => i,
            None => {
                return Err("Room not found");
            },
        };
        if let Some(expected) = &self.rooms[i].password {
            if !expected.as_str().is_empty() {
                let ok = match password {
                    Some(supplied) => password_matches(supplied, expected.as_str()),
                    None => false,
                };
                if !ok {
                    return Err("Invalid password");
                }
            }
        }
        let ghost before = self.rooms@[i as int];
        assert(room_wf(before));
        let pid = participant.id;
        let is_new = find_seat(&self.rooms[i].participants, pid).is_none();
        let mut room = self.rooms.remove(i);
        let mut notifs: Vec<SyncNotification> = Vec::new();
        if is_new {
            let mut newcomer = participant;
            newcomer.display_name = unique_name(&room.participants, &newcomer.display_name);
            room.participants.push(newcomer);
            let sp_msg = make_syncplay_user_event(
                &room,
                &room.participants[room.participants.len() - 1],
                Some(UserEvent::Joined),
            );
            notifs = sp_broadcast_to_room(&room, sp_msg, Some(pid));
        }
        let info = room.to_info(clock);
        let ws_msg = make_room_update_message(&room, clock);
        let told_ws = ws_broadcast_to_room(&self.user_addrs, &room, ws_msg, None);
        let all = both(notifs, told_ws);
        self.rooms.insert(i, room);
        proof {
            assert(self.rooms@[i as int] == room);
            assert forall|j: int| 0 <= j < start.rooms@.len() && j != i implies #[trigger] self.rooms@[j]
                == start.rooms@[j] by {}
            lemma_joined_room_wf(before, room, participant);
            lemma_change_keeps_wf(start, *self, i as int);
            if !is_new {
                assert(all@ =~= told_ws@);
            }
        }
        Ok((info, all))
    }

    /// The code of the room that a name leads to.
    pub fn existing_code(&self, room_name: &str) -> (r: Option<String>)
        requires
            engine_wf(*self),
        ensures
            r is Some <==> code_for(*self, room_name@) is Some,
            r matches Some(code) ==> Some(code@) == code_for(*self, room_name@) && room_at(
                self.rooms@,
                code@,
            ) is Some,
    {
        proof {
            lemma_alias_leads_to_room(*self, room_name@);
        }
        if find_room(&self.rooms, room_name).is_some() {
            Some(room_name.to_owned())
        } else {
            find_alias(&self.room_name_aliases, room_name)
        }
    }

    /// Joins a room by its code or its name, or creates one under that name with the code `fresh`. In
    /// a room that is created so everybody may control playback, and it has no password: the one
    /// supplied is that of the server.
    pub fn join_or_create(
        &mut self,
        participant: SyncParticipant,
        room_name: &str,
        password: Option<&str>,
        fresh: String,
        clock: Clock,
    ) -> (r: Result<(String, RoomInfo, Vec<SyncNotification>), &'static str>)
        requires
            engine_wf(*old(self)),
            room_at(old(self).rooms@, fresh@) is None,
        ensures
            engine_wf(*final(self)),
            match code_for(*old(self), room_name@) {
                Some(code) => {
                    let i = room_at(old(self).rooms@, code)->0;
                    let before = old(self).rooms@[i];
                    let after = final(self).rooms@[i];
                    &&& room_at(old(self).rooms@, code) is Some
                    &&& if !lets_in(before, opt_view(password)) {
                        r matches Err(e) && e@ == "Invalid password"@ && *final(self) == *old(self)
                    } else {
                        &&& only_room_changed(*old(self), *final(self), i)
                        &&& joined_room(before, after, participant)
                        &&& r is Ok
                        &&& r matches Ok(p) ==> p.0@ == code && describes(p.1, after, clock)
                            && welcome(
                            p.2@,
                            old(self).user_addrs@,
                            before,
                            after,
                            participant.id,
                            clock,
                        )
                    }
                },
                None => {
                    let room = final(self).rooms@.last();
                    &&& created(*old(self), *final(self), fresh@, room_name@)
                    &&& is_new_room(
                        room,
                        fresh@,
                        room_name@,
                        None,
                        None,
                        room.media_name,
                        participant.id,
                        participant.display_name,
                        participant.kind,
                        Some(ControlMode::Egalitarian),
                        None,
                        clock,
                    )
                    &&& room.media_name@ == room_name@
                    &&& r is Ok
                    &&& r matches Ok(p) ==> p.0@ == fresh@ && describes(p.1, room, clock)
                        && p.2@.len() == 0
                },
            },
    {
        match self.existing_code(room_name) {
            Some(code) => {
                match self.join_room(participant, code.as_str(), password, clock) {
                    Ok((info, notifs)) => Ok((code, info, notifs)),
                    Err(e) => Err(e),
                }
            },
            None => {
                let info = self.create_room_with_code(
                    fresh.clone(),
                    None,
                    None,
                    room_name.to_owned(),
                    participant.id,
                    participant.display_name,
                    participant.kind,
                    Some(ControlMode::Egalitarian),
                    None,
                    Some(room_name.to_owned()),
                    clock,
                );
                Ok((fresh, info, Vec::new()))
            },
        }
    }

    /// Joins a room by its code or its name, or creates one under that name, with a code drawn at
    /// random.
    pub fn join_room_by_name(
        &mut self,
        participant: SyncParticipant,
        room_name: &str,
        password: Option<&str>,
        clock: Clock,
    ) -> (r: Result<(String, RoomInfo, Vec<SyncNotification>), &'static str>)
        requires
            engine_wf(*old(self)),
        ensures
            engine_wf(*final(self)),
            joined_by_name(*old(self), *final(self), participant, room_name@, opt_view(password), clock, r),
    {
        match self.existing_code(room_name) {
            Some(code) => {
                match self.join_room(participant, code.as_str(), password, clock) {
                    Ok((info, notifs)) => Ok((code, info, notifs)),
                    Err(e) => Err(e),
                }
            },
            None => match self.fresh_room_code() {
                Some(fresh) => self.join_or_create(participant, room_name, password, fresh, clock),
                None => Err("No room code is free"),
            },
        }
    }

    /// Leaves a room.
    pub fn leave_room(&mut self, participant_id: ParticipantId, code: &str, clock: Clock) -> (r: Result<
        Option<Vec<SyncNotification>>,
        &'static str,
    >)
        requires
            engine_wf(*old(self)),
        ensures
            engine_wf(*final(self)),
            room_left(*old(self), *final(self), participant_id, code@, clock, r),
    {
        let i: usize = match find_room(&self.rooms, code) {
            Some(i) => i,
            None => {
                return Err("Room not found");
            },
        };
        if find_seat(&self.rooms[i].participants, participant_id).is_none() {
            return Ok(None);
        }
        Ok(self.remove_participant(participant_id, i, clock))
    }

    /// Takes a participant out of its room after its connection dropped.
    pub fn handle_disconnect(&mut self, participant_id: ParticipantId, clock: Clock) -> (r: Option<
        Vec<SyncNotification>,
    >)
        requires
            engine_wf(*old(self)),
        ensures
            engine_wf(*final(self)),
            disconnected(*old(self), *final(self), participant_id, clock, r),
    {
        let mut i: usize = 0;
        proof {
            lemma_room_with(self.rooms@, participant_id);
        }
        let ghost at = room_with(self.rooms@, participant_id);
        while i < self.rooms.len()
            invariant
                *self == *old(self),
                engine_wf(*self),
                0 <= i <= self.rooms@.len(),
                forall|j: int| 0 <= j < i ==> !is_member(#[trigger] self.rooms@[j], participant_id),
                at == room_with(self.rooms@, participant_id),
                at matches Some(k) ==> 0 <= k < self.rooms@.len() && is_member(
                    self.rooms@[k],
                    participant_id,
                ) && forall|j: int|
                    0 <= j < k ==> !is_member(#[trigger] self.rooms@[j], participant_id),
                at is None ==> forall|j: int|
                    0 <= j < self.rooms@.len() ==> !is_member(
                        #[trigger] self.rooms@[j],
                        participant_id,
                    ),
            decreases self.rooms@.len() - i,
        {
            if find_seat(&self.rooms[i].participants, participant_id).is_some() {
                assert(at == Some(i as int));
                return self.remove_participant(participant_id, i, clock);
            }
            i = i + 1;
        }
        None
    }
}

/// The code of the room that a name leads to: it may be the code itself, or an alias.
pub open spec fn code_for(e: SyncEngine, name: Seq<char>) -> Option<Seq<char>> {
    if room_at(e.rooms@, name) is Some {
        Some(name)
    } else {
        alias_at(e.room_name_aliases@, name)
    }
}

/// What `room_with` finds is the first room with the participant.
proof fn lemma_room_with(rooms: Seq<SyncRoom>, id: ParticipantId)
    ensures
        room_with(rooms, id) matches Some(i) ==> 0 <= i < rooms.len() && is_member(rooms[i], id)
            && forall|j: int| 0 <= j < i ==> !is_member(#[trigger] rooms[j], id),
        room_with(rooms, id) is None ==> forall|j: int|
            0 <= j < rooms.len() ==> !is_member(#[trigger] rooms[j], id),
    decreases rooms.len(),
{
    if rooms.len() > 0 {
        lemma_room_with(rooms.drop_last(), id);
        assert forall|j: int| 0 <= j < rooms.len() - 1 implies #[trigger] rooms[j]
            == rooms.drop_last()[j] by {}
    }
}

/// The code that an alias stands for is among the aliases' codes.
proof fn lemma_alias_at(aliases: Seq<RoomAlias>, name: Seq<char>)
    ensures
        alias_at(aliases, name) matches Some(c) ==> exists|i: int|
            0 <= i < aliases.len() && (#[trigger] aliases[i]).code@ == c && aliases[i].name@ == name,
    decreases aliases.len(),
{
    if aliases.len() > 0 {
        lemma_alias_at(aliases.drop_last(), name);
        if let Some(c) = alias_at(aliases.drop_last(), name) {
            let i = choose|i: int|
                0 <= i < aliases.drop_last().len() && (#[trigger] aliases.drop_last()[i]).code@ == c
                    && aliases.drop_last()[i].name@ == name;
            assert(aliases[i] == aliases.drop_last()[i]);
        } else if aliases.last().name@ == name {
            assert(aliases[aliases.len() - 1].code@ == aliases.last().code@);
        }
    }
}

/// A name that leads somewhere leads to a room that exists.
pub proof fn lemma_alias_leads_to_room(e: SyncEngine, name: Seq<char>)
    requires
        engine_wf(e),
    ensures
        code_for(e, name) matches Some(code) ==> room_at(e.rooms@, code) is Some,
{
    lemma_alias_at(e.room_name_aliases@, name);
}

/// Whoever has joined is in the room.
pub proof fn law_joined_is_member(before: SyncRoom, after: SyncRoom, p: SyncParticipant)
    requires
        joined_room(before, after, p),
    ensures
        is_member(after, p.id),
{
    lemma_seat(before.participants@, p.id);
    lemma_seat(after.participants@, p.id);
    if !is_member(before, p.id) {
        assert(after.participants@[after.participants@.len() - 1].id == p.id);
    }
}

/// The aliases of a state whose rooms still exist.
pub open spec fn live_aliases(aliases: Seq<RoomAlias>, rooms: Seq<SyncRoom>) -> Seq<RoomAlias> {
    aliases_kept(aliases, |al: RoomAlias| room_at(rooms, al.code@) is Some)
}

/// Taking a participant out of a room keeps exactly the aliases that lead somewhere.
proof fn lemma_departed_aliases(start: SyncEngine, a: SyncEngine, b: SyncEngine, i: int, id:
    ParticipantId)
    requires
        engine_wf(a),
        0 <= i < a.rooms@.len(),
        departed(a, b, i, id),
        a.room_name_aliases@ == live_aliases(start.room_name_aliases@, a.rooms@),
    ensures
        b.room_name_aliases@ == live_aliases(start.room_name_aliases@, b.rooms@),
{
    let room = a.rooms@[i];
    let f = |al: RoomAlias| room_at(a.rooms@, al.code@) is Some;
    let h = |al: RoomAlias| room_at(b.rooms@, al.code@) is Some;
    if room.participants@.len() == 1 {
        let g = |al: RoomAlias| al.code@ != room.code@;
        assert forall|j: int| 0 <= j < start.room_name_aliases@.len() implies (h(
            #[trigger] start.room_name_aliases@[j],
        ) == (f(start.room_name_aliases@[j]) && g(start.room_name_aliases@[j]))) by {
            let code = start.room_name_aliases@[j].code@;
            lemma_room_at(a.rooms@, code);
            lemma_room_at(b.rooms@, code);
            assert forall|k: int| 0 <= k < b.rooms@.len() implies #[trigger] b.rooms@[k]
                == a.rooms@[if k < i {
                k
            } else {
                k + 1
            }] by {}
            if let Some(at) = room_at(a.rooms@, code) {
                if code != room.code@ {
                    assert(b.rooms@[if at < i {
                        at
                    } else {
                        at - 1
                    }] == a.rooms@[at]);
                }
            }
            if let Some(at) = room_at(b.rooms@, code) {
                let k = if at < i {
                    at
                } else {
                    at + 1
                };
                assert(b.rooms@[at] == a.rooms@[k]);
                assert(a.rooms@[k].code@ == code);
                assert(k < i ==> a.rooms@[k].code@ != a.rooms@[i].code@);
                assert(i < k ==> a.rooms@[i].code@ != a.rooms@[k].code@);
            }
        }
        lemma_aliases_kept_twice(start.room_name_aliases@, f, g, h);
    } else {
        let t = |al: RoomAlias| true;
        assert forall|j: int| 0 <= j < a.rooms@.len() implies (#[trigger] a.rooms@[j]).code@
            == b.rooms@[j].code@ by {}
        assert forall|j: int| 0 <= j < start.room_name_aliases@.len() implies (h(
            #[trigger] start.room_name_aliases@[j],
        ) == (f(start.room_name_aliases@[j]) && t(start.room_name_aliases@[j]))) by {
            crate::sync_engine::engine::lemma_room_at_same_codes(
                a.rooms@,
                b.rooms@,
                start.room_name_aliases@[j].code@,
            );
        }
        lemma_aliases_kept_twice(start.room_name_aliases@, f, t, h);
        lemma_all_aliases_kept(a.room_name_aliases@, t);
    }
}

/// What the closing of a web socket does: the states before and after, and the result.
pub open spec fn socket_closed(
    a: SyncEngine,
    b: SyncEngine,
    user_id: i64,
    addr: SocketAddr,
    clock: Clock,
    r: Option<Vec<SyncNotification>>,
) -> bool {
    let closed = UserAddr { user_id, addr };
    let left = a.user_addrs@.filter(|u: UserAddr| u != closed);
    let pid = ParticipantId::DimUser(user_id);
    if !a.user_addrs@.contains(closed) {
        r is None && b == a
    } else if addrs_of(left, user_id).len() > 0 {
        &&& r is None
        &&& b.user_addrs@ == left
        &&& b.rooms == a.rooms
        &&& b.room_name_aliases == a.room_name_aliases
        &&& b.next_conn_id == a.next_conn_id
        &&& b.syncplay_conns == a.syncplay_conns
    } else {
        &&& b.user_addrs@ == left
        &&& b.next_conn_id == a.next_conn_id
        &&& b.syncplay_conns == a.syncplay_conns
        &&& b.room_name_aliases@ == live_aliases(a.room_name_aliases@, b.rooms@)
        &&& r is Some <==> somebody_stays(a.rooms@, pid)
        &&& all_left(
            a.rooms@,
            b.rooms@,
            match r {
                Some(ns) => ns@,
                None => Seq::empty(),
            },
            left,
            pid,
            clock,
        )
    }
}

impl SyncEngine {
    /// Takes a participant out of every room.
    fn leave_all_rooms(&mut self, participant_id: ParticipantId, clock: Clock) -> (r: Option<
        Vec<SyncNotification>,
    >)
        requires
            engine_wf(*old(self)),
        ensures
            engine_wf(*final(self)),
            final(self).user_addrs == old(self).user_addrs,
            final(self).next_conn_id == old(self).next_conn_id,
            final(self).syncplay_conns == old(self).syncplay_conns,
            final(self).room_name_aliases@ == live_aliases(
                old(self).room_name_aliases@,
                final(self).rooms@,
            ),
            r is Some <==> somebody_stays(old(self).rooms@, participant_id),
            all_left(
                old(self).rooms@,
                final(self).rooms@,
                match r {
                    Some(ns) => ns@,
                    None => Seq::empty(),
                },
                old(self).user_addrs@,
                participant_id,
                clock,
            ),
    {
        let ghost start = *self;
        let mut notifs: Vec<SyncNotification> = Vec::new();
        let mut stays = false;
        let mut i: usize = 0;
        let ghost mut k: int = 0;
        proof {
            assert(start.rooms@.subrange(0, 0) =~= Seq::empty());
            assert(start.rooms@.subrange(0, start.rooms@.len() as int) =~= start.rooms@);
            assert(self.rooms@.subrange(0, self.rooms@.len() as int) =~= self.rooms@);
            lemma_all_aliases_kept(
                start.room_name_aliases@,
                |al: RoomAlias| room_at(start.rooms@, al.code@) is Some,
            );
        }
        while i < self.rooms.len()
            invariant
                engine_wf(*self),
                0 <= i <= self.rooms@.len(),
                0 <= k <= start.rooms@.len(),
                self.rooms@.len() - i == start.rooms@.len() - k,
                self.user_addrs == start.user_addrs,
                self.next_conn_id == start.next_conn_id,
                self.syncplay_conns == start.syncplay_conns,
                self.room_name_aliases@ == live_aliases(start.room_name_aliases@, self.rooms@),
                forall|j: int|
                    i <= j < self.rooms@.len() ==> #[trigger] self.rooms@[j] == start.rooms@[j - i
                        + k],
                stays == somebody_stays(start.rooms@.subrange(0, k), participant_id),
                !stays ==> notifs@.len() == 0,
                all_left(
                    start.rooms@.subrange(0, k),
                    self.rooms@.subrange(0, i as int),
                    notifs@,
                    start.user_addrs@,
                    participant_id,
                    clock,
                ),
            decreases self.rooms@.len() - i,
        {
            let ghost now = *self;
            let ghost done = start.rooms@.subrange(0, k);
            let ghost more = start.rooms@.subrange(0, k + 1);
            let ghost room = start.rooms@[k];
            proof {
                assert(more.drop_last() =~= done);
                assert(more.last() == room);
                assert(now.rooms@[i as int] == room);
                assert(room_wf(now.rooms@[i as int]));
                lemma_somebody_stays(done, room, participant_id);
                assert(done.push(room) =~= more);
            }
            if find_seat(&self.rooms[i].participants, participant_id).is_some() {
                let alone = self.rooms[i].participants.len() == 1;
                match self.remove_participant(participant_id, i, clock) {
                    None => {
                        proof {
                            lemma_departed_aliases(start, now, *self, i as int, participant_id);
                            assert(self.rooms@.subrange(0, i as int) =~= now.rooms@.subrange(
                                0,
                                i as int,
                            ));
                            assert forall|j: int| i <= j < self.rooms@.len() implies #[trigger] self.rooms@[j]
                                == start.rooms@[j - i + k + 1] by {
                                assert(self.rooms@[j] == now.rooms@[j + 1]);
                            }
                        }
                    },
                    Some(mut ns) => {
                        let ghost earlier = notifs@;
                        let ghost told = ns@;
                        notifs.append(&mut ns);
                        stays = true;
                        proof {
                            lemma_departed_aliases(start, now, *self, i as int, participant_id);
                            let after = self.rooms@.subrange(0, i + 1);
                            assert(after.drop_last() =~= now.rooms@.subrange(0, i as int)) by {
                                assert forall|j: int| 0 <= j < i implies #[trigger] self.rooms@[j]
                                    == now.rooms@[j] by {}
                            }
                            assert(after.last() == self.rooms@[i as int]);
                            lemma_farewell_len(
                                told,
                                start.user_addrs@,
                                room,
                                after.last(),
                                participant_id,
                                clock,
                            );
                            let n = notifs@.len() - farewell_len(start.user_addrs@, after.last());
                            assert(notifs@.subrange(n, notifs@.len() as int) =~= told);
                            assert(notifs@.subrange(0, n) =~= earlier);
                            assert forall|j: int| i + 1 <= j < self.rooms@.len() implies #[trigger] self.rooms@[j]
                                == start.rooms@[j - i + k] by {
                                assert(self.rooms@[j] == now.rooms@[j]);
                            }
                        }
                        i = i + 1;
                    },
                }
            } else {
                proof {
                    let after = self.rooms@.subrange(0, i + 1);
                    assert(after.drop_last() =~= now.rooms@.subrange(0, i as int));
                    assert(after.last() == room);
                }
                i = i + 1;
            }
            proof {
                k = k + 1;
            }
        }
        proof {
            assert(start.rooms@.subrange(0, k) =~= start.rooms@);
            assert(self.rooms@.subrange(0, i as int) =~= self.rooms@);
            assert(notifs@.len() == 0 ==> notifs@ =~= Seq::empty());
        }
        if stays {
            Some(notifs)
        } else {
            None
        }
    }

    /// A web socket of a user has closed. While the user has another one nothing else happens;
    /// otherwise the user leaves every room.
    pub fn handle_ws_disconnect(&mut self, user_id: i64, addr: SocketAddr, clock: Clock) -> (r: Option<
        Vec<SyncNotification>,
    >)
        requires
            engine_wf(*old(self)),
        ensures
            engine_wf(*final(self)),
            socket_closed(*old(self), *final(self), user_id, addr, clock, r),
    {
        let closed = UserAddr { user_id, addr };
        let mut kept: Vec<UserAddr> = Vec::new();
        let mut found = false;
        let ghost f = |u: UserAddr| u != closed;
        let mut i: usize = 0;
        proof {
            reveal(Seq::filter);
            assert(self.user_addrs@.subrange(0, 0) =~= Seq::empty());
        }
        while i < self.user_addrs.len()
            invariant
                *self == *old(self),
                closed == (UserAddr { user_id, addr }),
                0 <= i <= self.user_addrs@.len(),
                f == (|u: UserAddr| u != closed),
                found == self.user_addrs@.subrange(0, i as int).contains(closed),
                kept@ == self.user_addrs@.subrange(0, i as int).filter(f),
            decreases self.user_addrs@.len() - i,
        {
            proof {
                reveal(Seq::filter);
                let so_far = self.user_addrs@.subrange(0, i as int);
                let next = self.user_addrs@.subrange(0, i + 1);
                assert(next.drop_last() =~= so_far);
                assert(next[i as int] == self.user_addrs@[i as int]);
                assert(so_far.contains(closed) ==> next.contains(closed)) by {
                    if so_far.contains(closed) {
                        let j = choose|j: int| 0 <= j < so_far.len() && so_far[j] == closed;
                        assert(next[j] == closed);
                    }
                }
                assert(next.contains(closed) ==> so_far.contains(closed) || next[i as int]
                    == closed) by {
                    if next.contains(closed) {
                        let j = choose|j: int| 0 <= j < next.len() && next[j] == closed;
                        if j < i {
                            assert(so_far[j] == closed);
                        }
                    }
                }
            }
            if self.user_addrs[i] == closed {
                found = true;
            } else {
                kept.push(self.user_addrs[i]);
            }
            i = i + 1;
        }
        assert(self.user_addrs@.subrange(0, i as int) =~= self.user_addrs@);
        if !found {
            return None;
        }
        self.user_addrs = kept;
        if sockets_of(&self.user_addrs, user_id).len() > 0 {
            return None;
        }
        self.leave_all_rooms(ParticipantId::DimUser(user_id), clock)
    }
}

/// A farewell has the number of notifications that its targets call for.
proof fn lemma_farewell_len(
    ns: Seq<SyncNotification>,
    addrs: Seq<UserAddr>,
    before: SyncRoom,
    after: SyncRoom,
    id: ParticipantId,
    clock: Clock,
)
    requires
        farewell(ns, addrs, before, after, id, clock),
    ensures
        ns.len() == farewell_len(addrs, after),
{
}

/// Whether somebody stays in one of the rooms and one more.
proof fn lemma_somebody_stays(rooms: Seq<SyncRoom>, room: SyncRoom, id: ParticipantId)
    ensures
        somebody_stays(rooms.push(room), id) == (somebody_stays(rooms, id) || (is_member(room, id)
            && room.participants@.len() > 1)),
{
    let more = rooms.push(room);
    if somebody_stays(rooms, id) {
        let i = choose|i: int|
            0 <= i < rooms.len() && is_member(#[trigger] rooms[i], id)
                && rooms[i].participants@.len() > 1;
        assert(more[i] == rooms[i]);
    }
    if is_member(room, id) && room.participants@.len() > 1 {
        assert(more[rooms.len() as int] == room);
    }
    if somebody_stays(more, id) {
        let i = choose|i: int|
            0 <= i < more.len() && is_member(#[trigger] more[i], id)
                && more[i].participants@.len() > 1;
        if i < rooms.len() {
            assert(rooms[i] == more[i]);
        }
    }
}

/// Whoever has left all rooms is in none of them.
pub proof fn law_left_everywhere(
    before: Seq<SyncRoom>,
    after: Seq<SyncRoom>,
    ns: Seq<SyncNotification>,
    addrs: Seq<UserAddr>,
    id: ParticipantId,
    clock: Clock,
)
    requires
        all_left(before, after, ns, addrs, id, clock),
        forall|i: int| 0 <= i < before.len() ==> room_wf(#[trigger] before[i]),
    ensures
        forall|i: int| 0 <= i < after.len() ==> !is_member(#[trigger] after[i], id),
    decreases before.len(),
{
    if before.len() > 0 {
        let room = before.last();
        assert(before[before.len() - 1] == room);
        assert forall|i: int| 0 <= i < before.drop_last().len() implies room_wf(
            #[trigger] before.drop_last()[i],
        ) by {
            assert(before.drop_last()[i] == before[i]);
        }
        if !is_member(room, id) {
            law_left_everywhere(before.drop_last(), after.drop_last(), ns, addrs, id, clock);
        } else if room.participants@.len() == 1 {
            law_left_everywhere(before.drop_last(), after, ns, addrs, id, clock);
        } else {
            let k = ns.len() - farewell_len(addrs, after.last());
            law_left_everywhere(
                before.drop_last(),
                after.drop_last(),
                ns.subrange(0, k),
                addrs,
                id,
                clock,
            );
            lemma_left_room_wf(room, after.last(), id);
        }
        assert forall|i: int| 0 <= i < after.len() implies !is_member(#[trigger] after[i], id) by {
            if !(is_member(room, id) && room.participants@.len() == 1) {
                if i < after.len() - 1 {
                    assert(after[i] == after.drop_last()[i]);
                } else {
                    assert(after[i] == after.last());
                }
            }
        }
    }
}

/// A room has one host.
pub open spec fn one_host(ps: Seq<SyncParticipant>) -> bool {
    exists|h: int|
        0 <= h < ps.len() && (#[trigger] ps[h]).is_host && forall|j: int|
            0 <= j < ps.len() && (#[trigger] ps[j]).is_host ==> j == h
}

/// When the host of a room with one host leaves it to others, the first web user among them becomes
/// its one host, or the first of them all where there is no web user.
pub proof fn law_host_migrates(before: SyncRoom, after: SyncRoom, id: ParticipantId)
    requires
        room_wf(before),
        one_host(before.participants@),
        is_member(before, id),
        before.participants@.len() > 1,
        left_room(before, after, id),
    ensures
        one_host(after.participants@),
        before.participants@[seat(before.participants@, id)->0].is_host ==> host_seat(
            after.participants@,
        ) == Some(
            successor(before.participants@.remove(seat(before.participants@, id)->0)),
        ),
{
    let ps = before.participants@;
    let i = seat(ps, id)->0;
    lemma_seat(ps, id);
    let rest = ps.remove(i);
    lemma_successor(rest);
    let qs = after.participants@;
    let h = choose|h: int|
        0 <= h < ps.len() && (#[trigger] ps[h]).is_host && forall|j: int|
            0 <= j < ps.len() && (#[trigger] ps[j]).is_host ==> j == h;
    lemma_host_seat(qs);
    if ps[i].is_host {
        assert(h == i);
        let s = successor(rest);
        assert(qs[s].is_host);
        assert forall|j: int| 0 <= j < qs.len() && (#[trigger] qs[j]).is_host implies j == s by {
            if j != s {
                assert(qs[j] == ps[if j < i {
                    j
                } else {
                    j + 1
                }]);
            }
        }
    } else {
        let g = if h < i {
            h
        } else {
            h - 1
        };
        assert(qs[g] == ps[h]);
        assert forall|j: int| 0 <= j < qs.len() && (#[trigger] qs[j]).is_host implies j == g by {
            assert(qs[j] == ps[if j < i {
                j
            } else {
                j + 1
            }]);
        }
    }
}

/// A guest who joins leaves the host as it is.
pub proof fn law_joining_keeps_host(before: SyncRoom, after: SyncRoom, p: SyncParticipant)
    requires
        room_wf(before),
        one_host(before.participants@),
        joined_room(before, after, p),
        !p.is_host,
    ensures
        one_host(after.participants@),
        host_seat(after.participants@) == host_seat(before.participants@),
{
    let ps = before.participants@;
    let qs = after.participants@;
    lemma_host_seat(ps);
    lemma_host_seat(qs);
    let h = host_seat(ps)->0;
    if !is_member(before, p.id) {
        assert forall|j: int| 0 <= j < ps.len() implies #[trigger] qs[j] == ps[j] by {}
        assert(qs[h].is_host);
        assert forall|j: int| 0 <= j < qs.len() && (#[trigger] qs[j]).is_host implies j == h by {
            assert(j < ps.len());
            assert(qs[j] == ps[j]);
        }
    }
}

/// A guest who joins and then leaves has left no trace among the participants.
pub proof fn law_join_then_leave(
    before: SyncRoom,
    joined: SyncRoom,
    after: SyncRoom,
    p: SyncParticipant,
)
    requires
        room_wf(before),
        !is_member(before, p.id),
        !p.is_host,
        joined_room(before, joined, p),
        left_room(joined, after, p.id),
    ensures
        after.participants@ == before.participants@,
        same_but_participants(before, after),
{
    let ps = before.participants@;
    let qs = joined.participants@;
    lemma_seat(ps, p.id);
    lemma_seat(qs, p.id);
    assert forall|j: int| 0 <= j < ps.len() implies #[trigger] qs[j] == ps[j] by {}
    assert(qs[ps.len() as int].id == p.id);
    assert(seat(qs, p.id) == Some(ps.len() as int));
    assert(qs.remove(ps.len() as int) =~= ps);
}

}
