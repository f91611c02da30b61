//! What participants do in a room: control playback, report their state, chat.

use vstd::prelude::*;

use crate::events::{PushEventType, Seconds};
use crate::sync_engine::engine::{
    engine_wf, find_room, lemma_change_keeps_wf, only_room_changed, room_at, same_but_participants,
    SyncEngine,
};
use crate::sync_engine::notices::{
    both, is_room_update, is_state, is_sync, make_room_update_message, make_sync_message,
    make_syncplay_state_message, name_in, only_ws, sp_broadcast_to_room, sp_targets,
    ws_broadcast_to_room, ws_targets, ws_then_sp, SyncNotification, SyncplayMessage,
};
use crate::sync_engine::room::{
    describes, find_seat, host_of, host_seat, is_member, lemma_host_seat, lemma_seat, may_control, position_at,
    room_wf, seat, Clock, ControlMode, ParticipantId, PlaybackState, RoomInfo, RoomPlaybackSnapshot,
    SyncParticipant, SyncRoom,
};
use crate::text::same;

verus! {

/// For so many nanoseconds after somebody else has controlled playback the host's reports are
/// ignored: they may have been sent before the host learned of it.
pub const HOST_REPORT_HOLDOFF_NANOS: u64 = 2_000_000_000;

/// What a Syncplay client reports of its playback.
#[derive(Clone, Copy, Debug, PartialEq, Eq, Structural)]
pub struct PlaystateReport {
    pub position: Seconds,
    pub paused: bool,
    pub do_seek: bool,
    /// Whether the position is less than four seconds away from the room's.
    pub near: bool,
}

/// Whether a position is a finite number of seconds that is not negative.
pub open spec fn is_valid_position(position: Seconds) -> bool {
    position.bits < 0x7ff0_0000_0000_0000 || position.bits == 0x8000_0000_0000_0000
}

/// `room` with playback in this state, from this position on.
pub open spec fn with_playback(room: SyncRoom, state: PlaybackState, pos: Seconds, now: u64) -> SyncRoom {
    SyncRoom {
        playback_state: state,
        playback_position: pos,
        last_position_update: now,
        ..room
    }
}

/// The state that an action leads to: "play" and "pause" set it, "seek" keeps it; there is no other
/// action.
pub open spec fn state_after(action: Seq<char>, state: PlaybackState) -> Option<PlaybackState> {
    if action == "play"@ {
        Some(PlaybackState::Playing)
    } else if action == "pause"@ {
        Some(PlaybackState::Paused)
    } else if action == "seek"@ {
        Some(state)
    } else {
        None
    }
}

/// Until when the host's reports are ignored after `id` has controlled playback.
pub open spec fn holdoff_after(room: SyncRoom, id: ParticipantId, now: u64) -> Option<u64> {
    if host_of(room) == Some(id) {
        None
    } else if now <= u64::MAX - HOST_REPORT_HOLDOFF_NANOS {
        Some((now + HOST_REPORT_HOLDOFF_NANOS) as u64)
    } else {
        Some(u64::MAX)
    }
}

/// Host reports are ignored at this time.
pub open spec fn is_held_off(room: SyncRoom, clock: Clock) -> bool {
    room.host_report_holdoff_until matches Some(until) && clock.monotonic_nanos < until
}

/// The others learn of a playback command: the web users by the command, the Syncplay clients by the
/// room's new state.
pub open spec fn tells_playback(
    ns: Seq<SyncNotification>,
    e: SyncEngine,
    room: SyncRoom,
    id: ParticipantId,
    action: Seq<char>,
    position: Seconds,
    seek: bool,
    clock: Clock,
) -> bool {
    ws_then_sp(
        ns,
        ws_targets(e.user_addrs@, room.participants@, Some(id)),
        |ev: PushEventType| is_sync(ev, room.code@, action, position, clock),
        sp_targets(room.participants@, Some(id)),
        |m: SyncplayMessage| is_state(m, room, seek, name_in(room, id), clock),
    )
}

/// Everybody learns of the room's new state.
pub open spec fn tells_update(
    ns: Seq<SyncNotification>,
    e: SyncEngine,
    room: SyncRoom,
    clock: Clock,
) -> bool {
    only_ws(
        ns,
        ws_targets(e.user_addrs@, room.participants@, None),
        |ev: PushEventType| is_room_update(ev, room, clock),
    )
}

/// The participants with the one at `i` replaced.
pub open spec fn seat_changed(before: SyncRoom, after: SyncRoom, i: int, p: SyncParticipant) -> bool {
    same_but_participants(before, after) && after.participants@ == before.participants@.update(i, p)
}

/// A change of one participant that keeps its id, name and role keeps the room well formed.
pub proof fn lemma_seat_changed_wf(before: SyncRoom, after: SyncRoom, i: int, p: SyncParticipant)
    requires
        room_wf(before),
        0 <= i < before.participants@.len(),
        seat_changed(before, after, i, p),
        p.id == before.participants@[i].id,
        p.display_name == before.participants@[i].display_name,
        p.is_host == before.participants@[i].is_host,
    ensures
        room_wf(after),
{
    let ps = before.participants@;
    let qs = after.participants@;
    lemma_host_seat(ps);
    lemma_host_seat(qs);
    assert forall|j: int| 0 <= j < ps.len() implies (#[trigger] qs[j]).id == ps[j].id
        && qs[j].display_name == ps[j].display_name && qs[j].is_host == ps[j].is_host by {}
    assert(qs[host_seat(ps)->0].is_host);
}

/// Tells the others of a playback command.
fn tell_playback(
    engine: &SyncEngine,
    i: usize,
    id: ParticipantId,
    action: &str,
    position: Seconds,
    seek: bool,
    clock: Clock,
) -> (r: Vec<SyncNotification>)
    requires
        i < engine.rooms@.len(),
    ensures
        tells_playback(
            r@,
            *engine,
            engine.rooms@[i as int],
            id,
            action@,
            position,
            seek,
            clock,
        ),
{
    let room = &engine.rooms[i];
    let ws_msg = make_sync_message(room.code.as_str(), action, position, clock);
    let told_ws = ws_broadcast_to_room(&engine.user_addrs, room, ws_msg, Some(id));
    let set_by = room.participant_name(id);
    let sp_state = make_syncplay_state_message(room, seek, set_by, clock);
    let told_sp = sp_broadcast_to_room(room, sp_state, Some(id));
    both(told_ws, told_sp)
}

/// What a playback command does: the states before and after, and the result.
pub open spec fn playback_set(
    a: SyncEngine,
    b: SyncEngine,
    participant_id: ParticipantId,
    code: Seq<char>,
    action: Seq<char>,
    position: Seconds,
    clock: Clock,
    r: Result<Vec<SyncNotification>, &'static str>,
) -> bool {
    match room_at(a.rooms@, code) {
        None => r matches Err(e) && e@ == "Room not found"@ && b == a,
        Some(i) => {
            let before = a.rooms@[i];
            let after = b.rooms@[i];
            if !may_control(before, participant_id) {
                r matches Err(e) && e@ == "Not allowed to control playback"@ && b
                    == a
            } else {
                match state_after(action, before.playback_state) {
                    None => r matches Err(e) && e@ == "Invalid action"@ && b
                        == a,
                    Some(state) => {
                        &&& only_room_changed(a, b, i)
                        &&& after == SyncRoom {
                            host_report_holdoff_until: holdoff_after(
                                before,
                                participant_id,
                                clock.monotonic_nanos,
                            ),
                            ..with_playback(before, state, position, clock.monotonic_nanos)
                        }
                        &&& r matches Ok(ns) && tells_playback(
                            ns@,
                            a,
                            after,
                            participant_id,
                            action,
                            position,
                            action == "seek"@,
                            clock,
                        )
                    },
                }
            }
        },
    }
}

impl SyncEngine {
    /// Controls playback: "play", "pause" or "seek". The sender is not told: it has applied the
    /// action already.
    pub fn set_playback(
        &mut self,
        participant_id: ParticipantId,
        code: &str,
        action: &str,
        position: Seconds,
        clock: Clock,
    ) -> (r: Result<Vec<SyncNotification>, &'static str>)
        requires
            engine_wf(*old(self)),
        ensures
            engine_wf(*final(self)),
            playback_set(*old(self), *final(self), participant_id, code@, action@, position, clock, r),
    {
        let i: usize = match find_room(&self.rooms, code) {
            Some(i) => i,
            None => {
                return Err("Room not found");
            },
        };
        if !self.rooms[i].can_control(participant_id) {
            return Err("Not allowed to control playback");
        }
        let state = if same(action, "play") {
            PlaybackState::Playing
        } else if same(action, "pause") {
            PlaybackState::Paused
        } else if same(action, "seek") {
            self.rooms[i].playback_state
        } else {
            return Err("Invalid action");
        };
        let now = clock.monotonic_nanos;
        let holdoff = match self.rooms[i].host_id() {
            Some(host) if host == participant_id => None,
            _ => if now <= u64::MAX - HOST_REPORT_HOLDOFF_NANOS {
                Some(now + HOST_REPORT_HOLDOFF_NANOS)
            } else {
                Some(u64::MAX)
            },
        };
        let ghost start = *self;
        assert(room_wf(self.rooms@[i as int]));
        self.rooms[i].playback_state = state;
        self.rooms[i].playback_position = position;
        self.rooms[i].last_position_update = now;
        self.rooms[i].host_report_holdoff_until = holdoff;
        proof {
            lemma_change_keeps_wf(start, *self, i as int);
        }
        Ok(
            tell_playback(
                self,
                i,
                participant_id,
                action,
                position,
                same(action, "seek"),
                clock,
            ),
        )
    }
}

/// The room after the report of a participant: its latency is noted; a toggled pause, a seek or a
/// small drift of somebody who may control playback is adopted.
pub open spec fn after_report(
    before: SyncRoom,
    after: SyncRoom,
    id: ParticipantId,
    report: Option<PlaystateReport>,
    latency_ms: u32,
    now: u64,
) -> bool {
    let noted = match seat(before.participants@, id) {
        Some(i) => before.participants@.update(
            i,
            SyncParticipant { latency_ms, ..before.participants@[i] },
        ),
        None => before.participants@,
    };
    let base = SyncRoom { participants: after.participants, ..before };
    &&& after.participants@ == noted
    &&& after == match report {
        Some(p) if may_control(before, id) && adopts(before, p) => with_playback(
            base,
            if p.paused {
                PlaybackState::Paused
            } else {
                PlaybackState::Playing
            },
            p.position,
            now,
        ),
        _ => base,
    }
}

/// The report says that playback was paused or resumed.
pub open spec fn toggles(room: SyncRoom, report: PlaystateReport) -> bool {
    report.paused != (room.playback_state == PlaybackState::Paused)
}

/// The report's position becomes the room's.
pub open spec fn adopts(room: SyncRoom, report: PlaystateReport) -> bool {
    toggles(room, report) || report.do_seek || (!report.paused && report.near)
}

/// The action that a report amounts to.
pub open spec fn action_of(room: SyncRoom, report: PlaystateReport) -> Seq<char> {
    if toggles(room, report) {
        if report.paused {
            "pause"@
        } else {
            "play"@
        }
    } else {
        "seek"@
    }
}

/// What a client's report does: the states before and after, and the result.
pub open spec fn state_reported(
    a: SyncEngine,
    b: SyncEngine,
    participant_id: ParticipantId,
    code: Seq<char>,
    playstate: Option<PlaystateReport>,
    latency_ms: u32,
    clock: Clock,
    r: Result<(RoomPlaybackSnapshot, Vec<SyncNotification>), &'static str>,
) -> bool {
    match room_at(a.rooms@, code) {
        None => r matches Err(e) && e@ == "Room not found"@ && b == a,
        Some(i) => {
            let before = a.rooms@[i];
            let after = b.rooms@[i];
            &&& only_room_changed(a, b, i)
            &&& after_report(
                before,
                after,
                participant_id,
                playstate,
                latency_ms,
                clock.monotonic_nanos,
            )
            &&& r is Ok
            &&& r matches Ok(p) ==> {
                &&& p.0.position == position_at(after, clock)
                &&& p.0.paused == (after.playback_state == PlaybackState::Paused)
                &&& match playstate {
                    Some(report) if may_control(before, participant_id) && (toggles(
                        before,
                        report,
                    ) || report.do_seek) => tells_playback(
                        p.1@,
                        a,
                        after,
                        participant_id,
                        action_of(before, report),
                        report.position,
                        report.do_seek,
                        clock,
                    ),
                    _ => p.1@.len() == 0,
                }
            }
        },
    }
}

/// What the host's report does: the states before and after, and the result.
pub open spec fn host_reported(
    a: SyncEngine,
    b: SyncEngine,
    participant_id: ParticipantId,
    code: Seq<char>,
    position: Seconds,
    paused: bool,
    media_file_id: Option<i64>,
    clock: Clock,
    r: Result<Vec<SyncNotification>, &'static str>,
) -> bool {
    match room_at(a.rooms@, code) {
        None => r matches Err(e) && e@ == "Room not found"@ && b == a,
        Some(i) => {
            let before = a.rooms@[i];
            let after = b.rooms@[i];
            let state = if paused {
                PlaybackState::Paused
            } else {
                PlaybackState::Playing
            };
            if host_of(before) != Some(participant_id) {
                r matches Err(e) && e@ == "Only the host can report playback"@
                    && b == a
            } else if !is_valid_position(position) {
                r matches Err(e) && e@ == "Invalid position"@ && b == a
            } else if media_file_id != before.media_file_id {
                r matches Err(e) && e@ == "Room media has changed"@ && b == a
            } else if is_held_off(before, clock) {
                r matches Ok(ns) && ns@.len() == 0 && b == a
            } else {
                &&& only_room_changed(a, b, i)
                &&& after == SyncRoom {
                    host_report_holdoff_until: None,
                    ..with_playback(before, state, position, clock.monotonic_nanos)
                }
                &&& r is Ok
                &&& r matches Ok(ns) ==> if state != before.playback_state {
                    tells_playback(
                        ns@,
                        a,
                        after,
                        participant_id,
                        if paused {
                            "pause"@
                        } else {
                            "play"@
                        },
                        position,
                        false,
                        clock,
                    )
                } else {
                    ns@.len() == 0
                }
            }
        },
    }
}

/// What a change of media does: the states before and after, and the result.
pub open spec fn media_changed(
    a: SyncEngine,
    b: SyncEngine,
    participant_id: ParticipantId,
    code: Seq<char>,
    expected_media_file_id: i64,
    media_file_id: i64,
    media_id: i64,
    media_name: String,
    clock: Clock,
    r: Result<(RoomInfo, Vec<SyncNotification>), &'static str>,
) -> bool {
    match room_at(a.rooms@, code) {
        None => r matches Err(e) && e@ == "Room not found"@ && b == a,
        Some(i) => {
            let before = a.rooms@[i];
            let after = b.rooms@[i];
            if host_of(before) != Some(participant_id) {
                r matches Err(e) && e@ == "Only the host can change the media"@
                    && b == a
            } else if before.media_file_id != Some(expected_media_file_id) {
                r matches Err(e) && e@ == "Room media has changed"@ && b == a
            } else {
                &&& only_room_changed(a, b, i)
                &&& after == SyncRoom {
                    media_file_id: Some(media_file_id),
                    media_id: Some(media_id),
                    media_name,
                    host_report_holdoff_until: None,
                    ..with_playback(
                        before,
                        PlaybackState::Paused,
                        Seconds { bits: 0 },
                        clock.monotonic_nanos,
                    )
                }
                &&& r is Ok
                &&& r matches Ok(p) ==> describes(p.0, after, clock) && ws_then_sp(
                    p.1@,
                    ws_targets(a.user_addrs@, after.participants@, None),
                    |ev: PushEventType| is_room_update(ev, after, clock),
                    sp_targets(after.participants@, None),
                    |m: SyncplayMessage|
                        is_state(m, after, true, name_in(after, participant_id), clock),
                )
            }
        },
    }
}

impl SyncEngine {
    /// Handles the report of a Syncplay client; without a `playstate` it is a ping only. Returns the
    /// authoritative state for the reply, and notifications for the others where the report changed
    /// playback.
    pub fn report_state(
        &mut self,
        participant_id: ParticipantId,
        code: &str,
        playstate: Option<PlaystateReport>,
        latency_ms: u32,
        clock: Clock,
    ) -> (r: Result<(RoomPlaybackSnapshot, Vec<SyncNotification>), &'static str>)
        requires
            engine_wf(*old(self)),
        ensures
            engine_wf(*final(self)),
            state_reported(*old(self), *final(self), participant_id, code@, playstate, latency_ms, clock, r),
    {
        let i: usize = match find_room(&self.rooms, code) {
            Some(i) => i,
            None => {
                return Err("Room not found");
            },
        };
        let ghost start = *self;
        let ghost before = self.rooms@[i as int];
        assert(room_wf(before));
        let controls = self.rooms[i].can_control(participant_id);
        if let Some(k) = find_seat(&self.rooms[i].participants, participant_id) {
            self.rooms[i].participants[k].latency_ms = latency_ms;
            proof {
                let p = SyncParticipant { latency_ms, ..before.participants@[k as int] };
                assert(self.rooms@[i as int].participants@ =~= before.participants@.update(
                    k as int,
                    p,
                ));
                lemma_seat_changed_wf(before, self.rooms@[i as int], k as int, p);
            }
        }
        let ghost noted = self.rooms@[i as int];
        proof {
            lemma_change_keeps_wf(start, *self, i as int);
            assert(noted == SyncRoom { participants: noted.participants, ..before });
        }
        let mut notifs: Vec<SyncNotification> = Vec::new();
        if let Some(report) = playstate {
            if controls {
                let toggled = report.paused != (self.rooms[i].playback_state
                    == PlaybackState::Paused);
                if toggled || report.do_seek || (!report.paused && report.near) {
                    self.rooms[i].playback_state = if report.paused {
                        PlaybackState::Paused
                    } else {
                        PlaybackState::Playing
                    };
                    self.rooms[i].playback_position = report.position;
                    self.rooms[i].last_position_update = clock.monotonic_nanos;
                    proof {
                        lemma_change_keeps_wf(start, *self, i as int);
                    }
                }
                if toggled || report.do_seek {
                    let action = if toggled {
                        if report.paused {
                            "pause"
                        } else {
                            "play"
                        }
                    } else {
                        "seek"
                    };
                    notifs = tell_playback(
                        self,
                        i,
                        participant_id,
                        action,
                        report.position,
                        report.do_seek,
                        clock,
                    );
                }
            }
        }
        Ok((self.rooms[i].snapshot(clock), notifs))
    }

    /// Handles the host's own report of where it is, and whether it is paused or stalled. A pause or
    /// a resume is passed on to the others; a position is adopted without a word. While reports are
    /// held off they are ignored.
    pub fn report_host_state(
        &mut self,
        participant_id: ParticipantId,
        code: &str,
        position: Seconds,
        paused: bool,
        media_file_id: Option<i64>,
        clock: Clock,
    ) -> (r: Result<Vec<SyncNotification>, &'static str>)
        requires
            engine_wf(*old(self)),
        ensures
            engine_wf(*final(self)),
            host_reported(*old(self), *final(self), participant_id, code@, position, paused, media_file_id, clock, r),
    {
        let i: usize = match find_room(&self.rooms, code) {
            Some(i) => i,
            None => {
                return Err("Room not found");
            },
        };
        let is_host = match self.rooms[i].host_id() {
            Some(host) => host == participant_id,
            None => false,
        };
        if !is_host {
            return Err("Only the host can report playback");
        }
        if position.bits >= 0x7ff0_0000_0000_0000 && position.bits != 0x8000_0000_0000_0000 {
            return Err("Invalid position");
        }
        let same_media = match (media_file_id, self.rooms[i].media_file_id) {
            (Some(a), Some(b)) => a == b,
            (None, None) => true,
            _ => false,
        };
        if !same_media {
            return Err("Room media has changed");
        }
        if let Some(until) = self.rooms[i].host_report_holdoff_until {
            if clock.monotonic_nanos < until {
                return Ok(Vec::new());
            }
        }
        let ghost start = *self;
        assert(room_wf(self.rooms@[i as int]));
        let state = if paused {
            PlaybackState::Paused
        } else {
            PlaybackState::Playing
        };
        let toggled = state != self.rooms[i].playback_state;
        self.rooms[i].playback_state = state;
        self.rooms[i].playback_position = position;
        self.rooms[i].last_position_update = clock.monotonic_nanos;
        self.rooms[i].host_report_holdoff_until = None;
        proof {
            lemma_change_keeps_wf(start, *self, i as int);
        }
        if toggled {
            let action = if paused {
                "pause"
            } else {
                "play"
            };
            Ok(tell_playback(self, i, participant_id, action, position, false, clock))
        } else {
            Ok(Vec::new())
        }
    }

    /// Moves the room on to another file, which starts out paused at its beginning. Only the host may
    /// do so, and only from the file that it knows the room to be at. Everybody is told, the host too.
    pub fn change_media(
        &mut self,
        participant_id: ParticipantId,
        code: &str,
        expected_media_file_id: i64,
        media_file_id: i64,
        media_id: i64,
        media_name: String,
        clock: Clock,
    ) -> (r: Result<(RoomInfo, Vec<SyncNotification>), &'static str>)
        requires
            engine_wf(*old(self)),
        ensures
            engine_wf(*final(self)),
            media_changed(*old(self), *final(self), participant_id, code@, expected_media_file_id, media_file_id, media_id, media_name, clock, r),
    {
        let i: usize = match find_room(&self.rooms, code) {
            Some(i) => i,
            None => {
                return Err("Room not found");
            },
        };
        let is_host = match self.rooms[i].host_id() {
            Some(host) => host == participant_id,
            None => false,
        };
        if !is_host {
            return Err("Only the host can change the media");
        }
        let expected = match self.rooms[i].media_file_id {
            Some(id) => id == expected_media_file_id,
            None => false,
        };
        if !expected {
            return Err("Room media has changed");
        }
        let ghost start = *self;
        assert(room_wf(self.rooms@[i as int]));
        self.rooms[i].media_file_id = Some(media_file_id);
        self.rooms[i].media_id = Some(media_id);
        self.rooms[i].media_name = media_name;
        self.rooms[i].playback_state = PlaybackState::Paused;
        self.rooms[i].playback_position = Seconds { bits: 0 };
        self.rooms[i].last_position_update = clock.monotonic_nanos;
        self.rooms[i].host_report_holdoff_until = None;
        proof {
            lemma_change_keeps_wf(start, *self, i as int);
        }
        let room = &self.rooms[i];
        let info = room.to_info(clock);
        let ws_msg = make_room_update_message(room, clock);
        let told_ws = ws_broadcast_to_room(&self.user_addrs, room, ws_msg, None);
        let set_by = room.participant_name(participant_id);
        let sp_state = make_syncplay_state_message(room, true, set_by, clock);
        let told_sp = sp_broadcast_to_room(room, sp_state, None);
        Ok((info, both(told_ws, told_sp)))
    }
}

/// A command of somebody who may control playback is carried out: "play" and "pause" set the state, "seek"
/// keeps it, and the room stands where the command says, from now on. Nothing else of the room changes but
/// for how long the host's reports are ignored: until two seconds later, or not at all where the host gave
/// the command.
pub proof fn law_commands_are_carried_out(
    a: SyncEngine,
    b: SyncEngine,
    id: ParticipantId,
    code: Seq<char>,
    action: Seq<char>,
    position: Seconds,
    clock: Clock,
    r: Result<Vec<SyncNotification>, &'static str>,
    i: int,
)
    requires
        playback_set(a, b, id, code, action, position, clock, r),
        room_at(a.rooms@, code) == Some(i),
        may_control(a.rooms@[i], id),
        action == "play"@ || action == "pause"@ || action == "seek"@,
    ensures
        r is Ok,
        action == "play"@ ==> b.rooms@[i].playback_state == PlaybackState::Playing,
        action == "pause"@ ==> b.rooms@[i].playback_state == PlaybackState::Paused,
        action == "seek"@ ==> b.rooms@[i].playback_state == a.rooms@[i].playback_state,
        b.rooms@[i].playback_position == position,
        b.rooms@[i].last_position_update == clock.monotonic_nanos,
        host_of(a.rooms@[i]) == Some(id) ==> b.rooms@[i].host_report_holdoff_until is None,
        host_of(a.rooms@[i]) != Some(id) && clock.monotonic_nanos <= u64::MAX - 2_000_000_000
            ==> b.rooms@[i].host_report_holdoff_until == Some(
            (clock.monotonic_nanos + 2_000_000_000) as u64,
        ),
        b.rooms@[i].participants == a.rooms@[i].participants,
        b.rooms@[i].chat_messages == a.rooms@[i].chat_messages,
        b.rooms@[i].media_file_id == a.rooms@[i].media_file_id,
        b.rooms@[i].control_mode == a.rooms@[i].control_mode,
{
    reveal_strlit("play");
    reveal_strlit("pause");
    reveal_strlit("seek");
    assert("play"@.len() == 4 && "play"@[0] == 'p');
    assert("pause"@.len() == 5);
    assert("seek"@.len() == 4 && "seek"@[0] == 's');
}

/// Whoever may not control playback, and whatever is no command, changes nothing and is refused.
pub proof fn law_other_commands_are_refused(
    a: SyncEngine,
    b: SyncEngine,
    id: ParticipantId,
    code: Seq<char>,
    action: Seq<char>,
    position: Seconds,
    clock: Clock,
    r: Result<Vec<SyncNotification>, &'static str>,
)
    requires
        playback_set(a, b, id, code, action, position, clock, r),
    ensures
        r is Err ==> b == a,
        r is Ok <==> (room_at(a.rooms@, code) matches Some(i) && may_control(a.rooms@[i], id) && seq![
            "play"@,
            "pause"@,
            "seek"@,
        ].contains(action)),
{
    let all = seq!["play"@, "pause"@, "seek"@];
    assert(all[0] == "play"@ && all[1] == "pause"@ && all[2] == "seek"@);
}

/// The host's report is adopted while reports are not held off: the room is paused exactly if the host is,
/// and stands where the host does. The others hear of it only where playback was paused or resumed.
pub proof fn law_hosts_are_followed(
    a: SyncEngine,
    b: SyncEngine,
    id: ParticipantId,
    code: Seq<char>,
    position: Seconds,
    paused: bool,
    media_file_id: Option<i64>,
    clock: Clock,
    r: Result<Vec<SyncNotification>, &'static str>,
    i: int,
)
    requires
        host_reported(a, b, id, code, position, paused, media_file_id, clock, r),
        room_at(a.rooms@, code) == Some(i),
        host_of(a.rooms@[i]) == Some(id),
        position.bits < 0x7ff0_0000_0000_0000,
        media_file_id == a.rooms@[i].media_file_id,
        a.rooms@[i].host_report_holdoff_until matches Some(until) ==> until <= clock.monotonic_nanos,
    ensures
        b.rooms@[i].playback_state == PlaybackState::Paused <==> paused,
        b.rooms@[i].playback_position == position,
        b.rooms@[i].last_position_update == clock.monotonic_nanos,
        b.rooms@[i].host_report_holdoff_until is None,
        r is Ok,
        paused == (a.rooms@[i].playback_state == PlaybackState::Paused) ==> r->Ok_0@.len() == 0,
        b.rooms@[i].participants == a.rooms@[i].participants,
        b.rooms@[i].media_file_id == a.rooms@[i].media_file_id,
{
}

/// A report of anybody but the host, of no position, of other media, or while reports are held off,
/// changes nothing.
pub proof fn law_other_host_reports_change_nothing(
    a: SyncEngine,
    b: SyncEngine,
    id: ParticipantId,
    code: Seq<char>,
    position: Seconds,
    paused: bool,
    media_file_id: Option<i64>,
    clock: Clock,
    r: Result<Vec<SyncNotification>, &'static str>,
    i: int,
)
    requires
        host_reported(a, b, id, code, position, paused, media_file_id, clock, r),
        room_at(a.rooms@, code) == Some(i),
        host_of(a.rooms@[i]) != Some(id) || position.bits > 0x8000_0000_0000_0000 || (
        0x7ff0_0000_0000_0000 <= position.bits < 0x8000_0000_0000_0000) || media_file_id
            != a.rooms@[i].media_file_id || (a.rooms@[i].host_report_holdoff_until matches Some(until)
            && clock.monotonic_nanos < until),
    ensures
        b == a,
        r matches Ok(ns) ==> ns@.len() == 0 && host_of(a.rooms@[i]) == Some(id),
{
}

/// The host, and nobody else, changes the media, and only from what it takes the media to be. The room then
/// stands still at the start of the new media.
pub proof fn law_new_media_start_at_the_beginning(
    a: SyncEngine,
    b: SyncEngine,
    id: ParticipantId,
    code: Seq<char>,
    expected: i64,
    media_file_id: i64,
    media_id: i64,
    media_name: String,
    clock: Clock,
    r: Result<(RoomInfo, Vec<SyncNotification>), &'static str>,
    i: int,
)
    requires
        media_changed(a, b, id, code, expected, media_file_id, media_id, media_name, clock, r),
        room_at(a.rooms@, code) == Some(i),
    ensures
        r is Ok <==> host_of(a.rooms@[i]) == Some(id) && a.rooms@[i].media_file_id == Some(expected),
        r is Err ==> b == a,
        r matches Ok(p) ==> {
            &&& b.rooms@[i].media_file_id == Some(media_file_id)
            &&& b.rooms@[i].media_id == Some(media_id)
            &&& b.rooms@[i].media_name == media_name
            &&& b.rooms@[i].playback_state == PlaybackState::Paused
            &&& b.rooms@[i].playback_position.bits == 0
            &&& b.rooms@[i].participants == a.rooms@[i].participants
            &&& p.0.media_file_id == Some(media_file_id)
            &&& p.0.media_name@ == media_name@
        },
{
}

/// A report of somebody who may control playback, by which it is paused, resumed or sought in, makes the
/// room what the report says: paused exactly if the report says so, at the position of the report, from
/// now on. The reply says so too.
pub proof fn law_reports_are_carried_out(
    a: SyncEngine,
    b: SyncEngine,
    id: ParticipantId,
    code: Seq<char>,
    report: PlaystateReport,
    latency_ms: u32,
    clock: Clock,
    r: Result<(RoomPlaybackSnapshot, Vec<SyncNotification>), &'static str>,
    i: int,
)
    requires
        state_reported(a, b, id, code, Some(report), latency_ms, clock, r),
        room_at(a.rooms@, code) == Some(i),
        may_control(a.rooms@[i], id),
        report.paused != (a.rooms@[i].playback_state == PlaybackState::Paused) || report.do_seek,
    ensures
        b.rooms@[i].playback_state == PlaybackState::Paused <==> report.paused,
        b.rooms@[i].playback_position == report.position,
        b.rooms@[i].last_position_update == clock.monotonic_nanos,
        r matches Ok(p) && p.0.paused == report.paused && p.0.position.base == report.position && (
        p.0.position.playing_nanos is None <==> report.paused) && (
        p.0.position.playing_nanos matches Some(n) ==> n == 0),
{
}

/// A report that neither pauses, resumes nor seeks tells nobody anything. While the room plays, it moves
/// the room if the reporter may control it and is near; otherwise playback stays as it is.
pub proof fn law_quiet_reports_tell_nobody(
    a: SyncEngine,
    b: SyncEngine,
    id: ParticipantId,
    code: Seq<char>,
    report: PlaystateReport,
    latency_ms: u32,
    clock: Clock,
    r: Result<(RoomPlaybackSnapshot, Vec<SyncNotification>), &'static str>,
    i: int,
)
    requires
        state_reported(a, b, id, code, Some(report), latency_ms, clock, r),
        room_at(a.rooms@, code) == Some(i),
        report.paused == (a.rooms@[i].playback_state == PlaybackState::Paused),
        !report.do_seek,
    ensures
        r matches Ok(p) && p.1@.len() == 0,
        b.rooms@[i].playback_state == a.rooms@[i].playback_state,
        may_control(a.rooms@[i], id) && !report.paused && report.near
            ==> b.rooms@[i].playback_position == report.position,
        !may_control(a.rooms@[i], id) || report.paused || !report.near
            ==> b.rooms@[i].playback_position == a.rooms@[i].playback_position
            && b.rooms@[i].last_position_update == a.rooms@[i].last_position_update,
{
}

/// Somebody who may not control playback changes nothing of it by a report, nor does anybody by a ping; the
/// latency is noted all the same. Nothing but playback and that latency is changed by any report.
pub proof fn law_reports_of_others_change_nothing(
    a: SyncEngine,
    b: SyncEngine,
    id: ParticipantId,
    code: Seq<char>,
    playstate: Option<PlaystateReport>,
    latency_ms: u32,
    clock: Clock,
    r: Result<(RoomPlaybackSnapshot, Vec<SyncNotification>), &'static str>,
    i: int,
)
    requires
        state_reported(a, b, id, code, playstate, latency_ms, clock, r),
        room_at(a.rooms@, code) == Some(i),
    ensures
        !may_control(a.rooms@[i], id) || playstate is None ==> b.rooms@[i].playback_state
            == a.rooms@[i].playback_state && b.rooms@[i].playback_position
            == a.rooms@[i].playback_position && (r matches Ok(p) && p.1@.len() == 0),
        b.rooms@[i].media_file_id == a.rooms@[i].media_file_id,
        b.rooms@[i].media_name == a.rooms@[i].media_name,
        b.rooms@[i].code == a.rooms@[i].code,
        b.rooms@[i].control_mode == a.rooms@[i].control_mode,
        b.rooms@[i].participants@.len() == a.rooms@[i].participants@.len(),
        seat(a.rooms@[i].participants@, id) matches Some(k) ==> b.rooms@[i].participants@[k].latency_ms
            == latency_ms,
        forall|k: int|
            0 <= k < a.rooms@[i].participants@.len() ==> (
            #[trigger] b.rooms@[i].participants@[k]).id == a.rooms@[i].participants@[k].id
                && b.rooms@[i].participants@[k].is_host == a.rooms@[i].participants@[k].is_host,
{
    lemma_seat(a.rooms@[i].participants@, id);
}

/// A room that is paused stands still: its position is the same at all times.
pub proof fn law_paused_rooms_stand_still(room: SyncRoom, a: Clock, b: Clock)
    requires
        room.playback_state == PlaybackState::Paused,
    ensures
        position_at(room, a) == position_at(room, b),
{
}

/// A room that plays moves on as fast as time does.
pub proof fn law_playing_rooms_move_with_time(room: SyncRoom, a: Clock, b: Clock)
    requires
        room.playback_state == PlaybackState::Playing,
        room.last_position_update <= a.monotonic_nanos <= b.monotonic_nanos,
    ensures
        position_at(room, a).base == position_at(room, b).base,
        position_at(room, b).playing_nanos->0 - position_at(room, a).playing_nanos->0
            == b.monotonic_nanos - a.monotonic_nanos,
{
}

/// Right after a command the room stands where the command says.
pub proof fn law_commands_set_the_position(
    room: SyncRoom,
    state: PlaybackState,
    position: Seconds,
    clock: Clock,
)
    ensures
        ({
            let p = position_at(with_playback(room, state, position, clock.monotonic_nanos), clock);
            &&& p.base == position
            &&& p.playing_nanos == match state {
                PlaybackState::Playing => Some(0u64),
                PlaybackState::Paused => None,
            }
        }),
{
}

/// In a room that only the host controls, nobody else may control playback; in the other rooms every
/// participant may, and nobody else.
pub proof fn law_control_modes(room: SyncRoom, id: ParticipantId)
    ensures
        room.control_mode == ControlMode::HostOnly ==> (may_control(room, id) <==> host_of(room)
            == Some(id)),
        room.control_mode == ControlMode::Egalitarian ==> (may_control(room, id) <==> is_member(
            room,
            id,
        )),
{
}

}
