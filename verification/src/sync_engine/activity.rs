//! What participants do in a room besides playback: hosting, files, chat, readiness.

use vstd::prelude::*;

use crate::events::PushEventType;
use crate::sync_engine::engine::{
    engine_wf, find_room, lemma_change_keeps_wf, only_room_changed, room_at, same_but_participants,
    SyncEngine,
};
use crate::sync_engine::membership::one_host;
use crate::sync_engine::notices::{
    both, is_room_update, is_user_event, make_room_update_message, make_syncplay_user_event,
    notices_for, only_ws, sp_broadcast_to_room, sp_targets, sp_then_ws, tells_ws,
    ws_broadcast_to_room, ws_targets, ws_then_sp, SyncNotification, SyncplayMessage,
};
use crate::sync_engine::playback::{lemma_seat_changed_wf, seat_changed, tells_update};
use crate::sync_engine::room::{
    find_seat, host_of, is_member, lemma_host_seat, lemma_seat, room_wf, seat, user_id_of,
    ChatMessage, Clock, ControlMode, ParticipantFile, ParticipantId, SyncParticipant, SyncRoom,
    MAX_CHAT_MESSAGES,
};

verus! {

/// The participants with `id` as the only host.
pub open spec fn hosted_by(ps: Seq<SyncParticipant>, id: ParticipantId) -> Seq<SyncParticipant> {
    ps.map_values(|p: SyncParticipant| SyncParticipant { is_host: p.id == id, ..p })
}

/// The message is this one.
pub open spec fn is_chat_message(
    m: ChatMessage,
    user_id: i64,
    username: Seq<char>,
    text: Seq<char>,
    timestamp_ms: u64,
) -> bool {
    m.user_id == user_id && m.username@ == username && m.text@ == text && m.timestamp_ms
        == timestamp_ms
}

/// The last messages, as many as a room keeps.
pub open spec fn recent(chat: Seq<ChatMessage>) -> Seq<ChatMessage> {
    if chat.len() > MAX_CHAT_MESSAGES {
        chat.subrange(chat.len() - MAX_CHAT_MESSAGES, chat.len() as int)
    } else {
        chat
    }
}

/// `after` is the room `before` with one more chat message.
pub open spec fn chatted(
    before: SyncRoom,
    after: SyncRoom,
    user_id: i64,
    username: Seq<char>,
    text: Seq<char>,
    timestamp_ms: u64,
) -> bool {
    &&& after == SyncRoom { chat_messages: after.chat_messages, ..before }
    &&& after.chat_messages@.len() > 0
    &&& is_chat_message(after.chat_messages@.last(), user_id, username, text, timestamp_ms)
    &&& after.chat_messages@ == recent(before.chat_messages@.push(after.chat_messages@.last()))
}

/// The event is this chat message.
pub open spec fn is_chat_event(
    e: PushEventType,
    code: Seq<char>,
    uid: i64,
    name: Seq<char>,
    said: Seq<char>,
    at: u64,
) -> bool {
    match e {
        PushEventType::EventWatchTogetherChat { room_code, user_id, username, text, timestamp_ms } => {
            room_code@ == code && user_id == uid && username@ == name && text@ == said
                && timestamp_ms == at
        },
        _ => false,
    }
}

/// The event is this buffering status.
pub open spec fn is_buffering_event(
    e: PushEventType,
    code: Seq<char>,
    uid: i64,
    name: Seq<char>,
    flag: bool,
) -> bool {
    match e {
        PushEventType::EventWatchTogetherBuffering { room_code, user_id, username, is_buffering } => {
            room_code@ == code && user_id == uid && username@ == name && is_buffering == flag
        },
        _ => false,
    }
}

/// The event is this ready status.
pub open spec fn is_ready_event(
    e: PushEventType,
    code: Seq<char>,
    uid: i64,
    name: Seq<char>,
    flag: bool,
) -> bool {
    match e {
        PushEventType::EventWatchTogetherReady { room_code, user_id, username, is_ready } => {
            room_code@ == code && user_id == uid && username@ == name && is_ready == flag
        },
        _ => false,
    }
}

/// The event is this control mode.
pub open spec fn is_mode_event(e: PushEventType, code: Seq<char>, mode: ControlMode) -> bool {
    match e {
        PushEventType::EventWatchTogetherModeChanged { room_code, control_mode } => {
            room_code@ == code && control_mode@ == mode.name()
        },
        _ => false,
    }
}

/// The Syncplay message is this chat message.
pub open spec fn is_syncplay_chat(m: SyncplayMessage, name: Seq<char>, said: Seq<char>) -> bool {
    match m {
        SyncplayMessage::Chat { username, message } => username@ == name && message@ == said,
        _ => false,
    }
}

/// The Syncplay message is this ready status.
pub open spec fn is_syncplay_ready(m: SyncplayMessage, name: Seq<char>, flag: bool) -> bool {
    match m {
        SyncplayMessage::Ready { username, is_ready } => username@ == name && is_ready == flag,
        _ => false,
    }
}

/// What noting a file does: the states before and after, and the result.
pub open spec fn file_set(
    a: SyncEngine,
    b: SyncEngine,
    participant_id: ParticipantId,
    code: Seq<char>,
    file: ParticipantFile,
    clock: Clock,
    r: Result<Vec<SyncNotification>, &'static str>,
) -> bool {
    match room_at(a.rooms@, code) {
        None => r matches Err(e) && e@ == "Room not found"@ && b == a,
        Some(i) => {
            let before = a.rooms@[i];
            let after = b.rooms@[i];
            match seat(before.participants@, participant_id) {
                None => r matches Err(e) && e@ == "User not in room"@ && b
                    == a,
                Some(k) => {
                    &&& only_room_changed(a, b, i)
                    &&& seat_changed(
                        before,
                        after,
                        k,
                        SyncParticipant {
                            file: Some(file),
                            ..before.participants@[k]
                        },
                    )
                    &&& r matches Ok(ns) && sp_then_ws(
                        ns@,
                        sp_targets(after.participants@, Some(participant_id)),
                        |m: SyncplayMessage|
                            is_user_event(m, after, after.participants@[k], None),
                        ws_targets(a.user_addrs@, after.participants@, None),
                        |e: PushEventType| is_room_update(e, after, clock),
                    )
                },
            }
        },
    }
}

/// What noting readiness does: the states before and after, and the result.
pub open spec fn ready_set(
    a: SyncEngine,
    b: SyncEngine,
    participant_id: ParticipantId,
    code: Seq<char>,
    is_ready: bool,
    r: Result<Vec<SyncNotification>, &'static str>,
) -> bool {
    match room_at(a.rooms@, code) {
        None => r matches Err(e) && e@ == "Room not found"@ && b == a,
        Some(i) => {
            let before = a.rooms@[i];
            let after = b.rooms@[i];
            match seat(before.participants@, participant_id) {
                None => r matches Err(e) && e@ == "User not in room"@ && b
                    == a,
                Some(k) => {
                    let p = before.participants@[k];
                    &&& only_room_changed(a, b, i)
                    &&& seat_changed(before, after, k, SyncParticipant { is_ready, ..p })
                    &&& r matches Ok(ns) && ws_then_sp(
                        ns@,
                        ws_targets(a.user_addrs@, after.participants@, None),
                        |e: PushEventType|
                            is_ready_event(
                                e,
                                code,
                                user_id_of(p.kind),
                                p.display_name@,
                                is_ready,
                            ),
                        sp_targets(after.participants@, Some(participant_id)),
                        |m: SyncplayMessage|
                            is_syncplay_ready(m, p.display_name@, is_ready),
                    )
                },
            }
        },
    }
}

/// What a chat message does: the states before and after, and the result.
pub open spec fn chat_added(
    a: SyncEngine,
    b: SyncEngine,
    participant_id: ParticipantId,
    code: Seq<char>,
    username: Seq<char>,
    text: Seq<char>,
    clock: Clock,
    r: Result<Vec<SyncNotification>, &'static str>,
) -> bool {
    match room_at(a.rooms@, code) {
        None => r matches Err(e) && e@ == "Room not found"@ && b == a,
        Some(i) => {
            let before = a.rooms@[i];
            let after = b.rooms@[i];
            match seat(before.participants@, participant_id) {
                None => r matches Err(e) && e@ == "User not in room"@ && b
                    == a,
                Some(k) => {
                    let uid = user_id_of(before.participants@[k].kind);
                    &&& only_room_changed(a, b, i)
                    &&& chatted(before, after, uid, username, text, clock.unix_ms)
                    &&& r matches Ok(ns) && ws_then_sp(
                        ns@,
                        ws_targets(a.user_addrs@, after.participants@, None),
                        |e: PushEventType|
                            is_chat_event(
                                e,
                                code,
                                uid,
                                username,
                                text,
                                clock.unix_ms,
                            ),
                        sp_targets(after.participants@, Some(participant_id)),
                        |m: SyncplayMessage| is_syncplay_chat(m, username, text),
                    )
                },
            }
        },
    }
}

/// What handing the host role over does: the states before and after, and the result.
pub open spec fn host_transferred(
    a: SyncEngine,
    b: SyncEngine,
    code: Seq<char>,
    from_id: ParticipantId,
    to_id: ParticipantId,
    clock: Clock,
    r: Result<Vec<SyncNotification>, &'static str>,
) -> bool {
    match room_at(a.rooms@, code) {
        None => r matches Err(e) && e@ == "Room not found"@ && b == a,
        Some(i) => {
            let before = a.rooms@[i];
            let after = b.rooms@[i];
            if host_of(before) != Some(from_id) {
                r matches Err(e) && e@ == "Only the host can transfer host"@ && b == a
            } else if !is_member(before, to_id) {
                r matches Err(e) && e@ == "Target user not in room"@ && b == a
            } else {
                &&& only_room_changed(a, b, i)
                &&& same_but_participants(before, after)
                &&& after.participants@ == hosted_by(before.participants@, to_id)
                &&& r matches Ok(ns) && tells_update(ns@, a, after, clock)
            }
        },
    }
}

/// What noting that somebody is buffering does: the states before and after, and the result.
pub open spec fn buffering_set(
    a: SyncEngine,
    b: SyncEngine,
    code: Seq<char>,
    participant_id: ParticipantId,
    username: Seq<char>,
    is_buffering: bool,
    r: Result<Vec<SyncNotification>, &'static str>,
) -> bool {
    match room_at(a.rooms@, code) {
        None => r matches Err(e) && e@ == "Room not found"@ && b == a,
        Some(i) => {
            let before = a.rooms@[i];
            let after = b.rooms@[i];
            match seat(before.participants@, participant_id) {
                None => r matches Err(e) && e@ == "User not in room"@ && b == a,
                Some(k) => {
                    &&& only_room_changed(a, b, i)
                    &&& seat_changed(
                        before,
                        after,
                        k,
                        SyncParticipant { is_buffering, ..before.participants@[k] },
                    )
                    &&& r matches Ok(ns) && only_ws(
                        ns@,
                        ws_targets(a.user_addrs@, after.participants@, None),
                        |e: PushEventType|
                            is_buffering_event(
                                e,
                                code,
                                user_id_of(before.participants@[k].kind),
                                username,
                                is_buffering,
                            ),
                    )
                },
            }
        },
    }
}

/// What changing the control mode does: the states before and after, and the result.
pub open spec fn mode_set(
    a: SyncEngine,
    b: SyncEngine,
    code: Seq<char>,
    participant_id: ParticipantId,
    mode: ControlMode,
    clock: Clock,
    r: Result<Vec<SyncNotification>, &'static str>,
) -> bool {
    match room_at(a.rooms@, code) {
        None => r matches Err(e) && e@ == "Room not found"@ && b == a,
        Some(i) => {
            let before = a.rooms@[i];
            let after = b.rooms@[i];
            let targets = ws_targets(a.user_addrs@, after.participants@, None);
            if host_of(before) != Some(participant_id) {
                r matches Err(e) && e@ == "Only the host can change control mode"@
                    && b == a
            } else {
                &&& only_room_changed(a, b, i)
                &&& after == SyncRoom { control_mode: mode, ..before }
                &&& r is Ok
                &&& r matches Ok(ns) ==> ns@.len() == 2 * notices_for(targets.len()) && (
                targets.len() > 0 ==> {
                    &&& tells_ws(
                        ns@[0],
                        targets,
                        |e: PushEventType| is_mode_event(e, code, mode),
                    )
                    &&& tells_ws(
                        ns@[1],
                        targets,
                        |e: PushEventType| is_room_update(e, after, clock),
                    )
                })
            }
        },
    }
}

impl SyncEngine {
    /// Hands the host role over.
    pub fn transfer_host(
        &mut self,
        code: &str,
        from_id: ParticipantId,
        to_id: ParticipantId,
        clock: Clock,
    ) -> (r: Result<Vec<SyncNotification>, &'static str>)
        requires
            engine_wf(*old(self)),
        ensures
            engine_wf(*final(self)),
            host_transferred(*old(self), *final(self), code@, from_id, to_id, clock, r),
    {
        let i: usize = match find_room(&self.rooms, code) {
            Some(i) => i,
            None => {
                return Err("Room not found");
            },
        };
        let is_host = match self.rooms[i].host_id() {
            Some(host) => host == from_id,
            None => false,
        };
        if !is_host {
            return Err("Only the host can transfer host");
        }
        if find_seat(&self.rooms[i].participants, to_id).is_none() {
            return Err("Target user not in room");
        }
        let ghost start = *self;
        let ghost before = self.rooms@[i as int];
        let ghost goal = hosted_by(before.participants@, to_id);
        assert(room_wf(before));
        let n: usize = self.rooms[i].participants.len();
        let mut k: usize = 0;
        while k < n
            invariant
                0 <= k <= n,
                i < self.rooms@.len(),
                n == before.participants@.len(),
                before == start.rooms@[i as int],
                goal == hosted_by(before.participants@, to_id),
                only_room_changed(start, *self, i as int),
                same_but_participants(before, self.rooms@[i as int]),
                self.rooms@[i as int].participants@.len() == n,
                forall|j: int| 0 <= j < k ==> self.rooms@[i as int].participants@[j] == goal[j],
                forall|j: int|
                    k <= j < n ==> self.rooms@[i as int].participants@[j] == before.participants@[j],
            decreases n - k,
        {
            let to_this = self.rooms[i].participants[k].id == to_id;
            self.rooms[i].participants[k].is_host = to_this;
            k = k + 1;
        }
        proof {
            let after = self.rooms@[i as int];
            assert(after.participants@ =~= goal);
            lemma_hosted_by(before, after, to_id);
            lemma_change_keeps_wf(start, *self, i as int);
        }
        let ws_msg = make_room_update_message(&self.rooms[i], clock);
        Ok(ws_broadcast_to_room(&self.user_addrs, &self.rooms[i], ws_msg, None))
    }

    /// Notes the file that a participant has open.
    pub fn set_file(
        &mut self,
        participant_id: ParticipantId,
        code: &str,
        file: ParticipantFile,
        clock: Clock,
    ) -> (r: Result<Vec<SyncNotification>, &'static str>)
        requires
            engine_wf(*old(self)),
        ensures
            engine_wf(*final(self)),
            file_set(*old(self), *final(self), participant_id, code@, file, clock, r),
    {
        let i: usize = match find_room(&self.rooms, code) {
            Some(i) => i,
            None => {
                return Err("Room not found");
            },
        };
        let k: usize = match find_seat(&self.rooms[i].participants, participant_id) {
            Some(k) => k,
            None => {
                return Err("User not in room");
            },
        };
        let ghost start = *self;
        let ghost before = self.rooms@[i as int];
        assert(room_wf(before));
        self.rooms[i].participants[k].file = Some(file);
        proof {
            let p = SyncParticipant { file: Some(file), ..before.participants@[k as int] };
            assert(self.rooms@[i as int].participants@ =~= before.participants@.update(
                k as int,
                p,
            ));
            lemma_seat_changed_wf(before, self.rooms@[i as int], k as int, p);
            lemma_change_keeps_wf(start, *self, i as int);
        }
        let room = &self.rooms[i];
        let sp_msg = make_syncplay_user_event(room, &room.participants[k], None);
        let told_sp = sp_broadcast_to_room(room, sp_msg, Some(participant_id));
        let ws_msg = make_room_update_message(room, clock);
        let told_ws = ws_broadcast_to_room(&self.user_addrs, room, ws_msg, None);
        Ok(both(told_sp, told_ws))
    }

    /// Notes whether a participant is buffering. The room is not paused on that account: a pause
    /// would make others seek, and so buffer in turn.
    pub fn set_buffering(
        &mut self,
        participant_id: ParticipantId,
        code: &str,
        username: &str,
        is_buffering: bool,
    ) -> (r: Result<Vec<SyncNotification>, &'static str>)
        requires
            engine_wf(*old(self)),
        ensures
            engine_wf(*final(self)),
            buffering_set(*old(self), *final(self), code@, participant_id, username@, is_buffering, r),
    {
        let i: usize = match find_room(&self.rooms, code) {
            Some(i) => i,
            None => {
                return Err("Room not found");
            },
        };
        let k: usize = match find_seat(&self.rooms[i].participants, participant_id) {
            Some(k) => k,
            None => {
                return Err("User not in room");
            },
        };
        let ghost start = *self;
        let ghost before = self.rooms@[i as int];
        assert(room_wf(before));
        self.rooms[i].participants[k].is_buffering = is_buffering;
        proof {
            let p = SyncParticipant { is_buffering, ..before.participants@[k as int] };
            assert(self.rooms@[i as int].participants@ =~= before.participants@.update(
                k as int,
                p,
            ));
            lemma_seat_changed_wf(before, self.rooms@[i as int], k as int, p);
            lemma_change_keeps_wf(start, *self, i as int);
        }
        let room = &self.rooms[i];
        let ws_msg = PushEventType::EventWatchTogetherBuffering {
            room_code: code.to_owned(),
            user_id: room.participants[k].user_id(),
            username: username.to_owned(),
            is_buffering,
        };
        Ok(ws_broadcast_to_room(&self.user_addrs, room, ws_msg, None))
    }

    /// Adds a chat message; the oldest goes where there are too many.
    pub fn add_chat(
        &mut self,
        participant_id: ParticipantId,
        code: &str,
        username: &str,
        text: String,
        clock: Clock,
    ) -> (r: Result<Vec<SyncNotification>, &'static str>)
        requires
            engine_wf(*old(self)),
        ensures
            engine_wf(*final(self)),
            chat_added(*old(self), *final(self), participant_id, code@, username@, text@, clock, r),
    {
        let i: usize = match find_room(&self.rooms, code) {
            Some(i) => i,
            None => {
                return Err("Room not found");
            },
        };
        let k: usize = match find_seat(&self.rooms[i].participants, participant_id) {
            Some(k) => k,
            None => {
                return Err("User not in room");
            },
        };
        let ghost start = *self;
        let ghost before = self.rooms@[i as int];
        assert(room_wf(before));
        let user_id = self.rooms[i].participants[k].user_id();
        let message = ChatMessage {
            user_id,
            username: username.to_owned(),
            text: text.clone(),
            timestamp_ms: clock.unix_ms,
        };
        self.rooms[i].chat_messages.push(message);
        if self.rooms[i].chat_messages.len() > MAX_CHAT_MESSAGES {
            let _oldest = self.rooms[i].chat_messages.remove(0);
        }
        proof {
            let chat = before.chat_messages@.push(message);
            let after = self.rooms@[i as int];
            assert(after.chat_messages@ =~= recent(chat));
            assert(after.chat_messages@.last() == message);
            lemma_change_keeps_wf(start, *self, i as int);
        }
        let room = &self.rooms[i];
        let ws_msg = PushEventType::EventWatchTogetherChat {
            room_code: code.to_owned(),
            user_id,
            username: username.to_owned(),
            text: text.clone(),
            timestamp_ms: clock.unix_ms,
        };
        let told_ws = ws_broadcast_to_room(&self.user_addrs, room, ws_msg, None);
        let sp_msg = SyncplayMessage::Chat { username: username.to_owned(), message: text };
        let told_sp = sp_broadcast_to_room(room, sp_msg, Some(participant_id));
        Ok(both(told_ws, told_sp))
    }

    /// Notes whether a participant is ready.
    pub fn set_ready(&mut self, participant_id: ParticipantId, code: &str, is_ready: bool) -> (r: Result<
        Vec<SyncNotification>,
        &'static str,
    >)
        requires
            engine_wf(*old(self)),
        ensures
            engine_wf(*final(self)),
            ready_set(*old(self), *final(self), participant_id, code@, is_ready, r),
    {
        let i: usize = match find_room(&self.rooms, code) {
            Some(i) => i,
            None => {
                return Err("Room not found");
            },
        };
        let k: usize = match find_seat(&self.rooms[i].participants, participant_id) {
            Some(k) => k,
            None => {
                return Err("User not in room");
            },
        };
        let ghost start = *self;
        let ghost before = self.rooms@[i as int];
        assert(room_wf(before));
        self.rooms[i].participants[k].is_ready = is_ready;
        proof {
            let p = SyncParticipant { is_ready, ..before.participants@[k as int] };
            assert(self.rooms@[i as int].participants@ =~= before.participants@.update(
                k as int,
                p,
            ));
            lemma_seat_changed_wf(before, self.rooms@[i as int], k as int, p);
            lemma_change_keeps_wf(start, *self, i as int);
        }
        let room = &self.rooms[i];
        let username = room.participants[k].display_name.clone();
        let ws_msg = PushEventType::EventWatchTogetherReady {
            room_code: code.to_owned(),
            user_id: room.participants[k].user_id(),
            username: username.clone(),
            is_ready,
        };
        let told_ws = ws_broadcast_to_room(&self.user_addrs, room, ws_msg, None);
        let sp_msg = SyncplayMessage::Ready { username, is_ready };
        let told_sp = sp_broadcast_to_room(room, sp_msg, Some(participant_id));
        Ok(both(told_ws, told_sp))
    }

    /// Changes who may control playback.
    pub fn set_control_mode(
        &mut self,
        participant_id: ParticipantId,
        code: &str,
        mode: ControlMode,
        clock: Clock,
    ) -> (r: Result<Vec<SyncNotification>, &'static str>)
        requires
            engine_wf(*old(self)),
        ensures
            engine_wf(*final(self)),
            mode_set(*old(self), *final(self), code@, participant_id, mode, clock, r),
    {
        let i: usize = match find_room(&self.rooms, code) {
            Some(i) => i,
            None => {
                return Err("Room not found");
            },
        };
        let is_host = match self.rooms[i].host_id() {
            Some(host) => host == participant_id,
            None => false,
        };
        if !is_host {
            return Err("Only the host can change control mode");
        }
        let ghost start = *self;
        assert(room_wf(self.rooms@[i as int]));
        self.rooms[i].control_mode = mode;
        proof {
            lemma_change_keeps_wf(start, *self, i as int);
        }
        let room = &self.rooms[i];
        let mode_msg = PushEventType::EventWatchTogetherModeChanged {
            room_code: code.to_owned(),
            control_mode: mode.as_str().to_owned(),
        };
        let told_mode = ws_broadcast_to_room(&self.user_addrs, room, mode_msg, None);
        let update_msg = make_room_update_message(room, clock);
        let told_update = ws_broadcast_to_room(&self.user_addrs, room, update_msg, None);
        Ok(both(told_mode, told_update))
    }
}

/// Handing the host role over keeps a room well formed, and leaves it with one host.
proof fn lemma_hosted_by(before: SyncRoom, after: SyncRoom, to: ParticipantId)
    requires
        room_wf(before),
        is_member(before, to),
        same_but_participants(before, after),
        after.participants@ == hosted_by(before.participants@, to),
    ensures
        room_wf(after),
        one_host(after.participants@),
        host_of(after) == Some(to),
{
    let ps = before.participants@;
    let qs = after.participants@;
    lemma_seat(ps, to);
    lemma_host_seat(qs);
    let k = seat(ps, to)->0;
    assert(qs[k].is_host);
    assert forall|j: int| 0 <= j < ps.len() implies (#[trigger] qs[j]).id == ps[j].id
        && qs[j].display_name == ps[j].display_name && qs[j].is_host == (ps[j].id == to) by {}
    assert forall|j: int| 0 <= j < qs.len() && (#[trigger] qs[j]).is_host implies j == k by {
        assert(ps[j].id == to);
    }
}

/// After the host role was handed over, its receiver is the one host.
pub proof fn law_transfer_gives_one_host(before: SyncRoom, after: SyncRoom, to: ParticipantId)
    requires
        room_wf(before),
        is_member(before, to),
        same_but_participants(before, after),
        after.participants@ == hosted_by(before.participants@, to),
    ensures
        one_host(after.participants@),
        host_of(after) == Some(to),
{
    lemma_hosted_by(before, after, to);
}

/// However much is said in a room, its chat holds the last messages, in the order in which they were
/// said, and no more of them than a room keeps.
pub proof fn law_chat_keeps_the_last_messages(chat: Seq<ChatMessage>, said: ChatMessage)
    ensures
        recent(chat.push(said)).len() <= MAX_CHAT_MESSAGES,
        recent(chat.push(said)).last() == said,
        recent(recent(chat).push(said)) == recent(chat.push(said)),
{
    assert(recent(recent(chat).push(said)) =~= recent(chat.push(said)));
}

/// `qs` are the participants `ps` but for the one at `k`, who stays the same person in the same role.
pub open spec fn only_seat_changed(ps: Seq<SyncParticipant>, qs: Seq<SyncParticipant>, k: int) -> bool {
    &&& qs.len() == ps.len()
    &&& forall|j: int| 0 <= j < ps.len() && j != k ==> #[trigger] qs[j] == ps[j]
    &&& qs[k].id == ps[k].id
    &&& qs[k].kind == ps[k].kind
    &&& qs[k].display_name == ps[k].display_name
    &&& qs[k].is_host == ps[k].is_host
}

/// Readiness is noted for the one who tells of it and for nobody else. All web users are told, and the Syncplay
/// clients but for that one.
pub proof fn law_readiness_is_noted(
    a: SyncEngine,
    b: SyncEngine,
    id: ParticipantId,
    code: Seq<char>,
    flag: bool,
    r: Result<Vec<SyncNotification>, &'static str>,
    i: int,
    k: int,
)
    requires
        ready_set(a, b, id, code, flag, r),
        room_at(a.rooms@, code) == Some(i),
        seat(a.rooms@[i].participants@, id) == Some(k),
    ensures
        b.rooms@[i].participants@[k].is_ready == flag,
        b.rooms@[i].participants@[k].is_buffering == a.rooms@[i].participants@[k].is_buffering,
        b.rooms@[i].participants@[k].file == a.rooms@[i].participants@[k].file,
        only_seat_changed(a.rooms@[i].participants@, b.rooms@[i].participants@, k),
        b.rooms@[i].playback_state == a.rooms@[i].playback_state,
        r matches Ok(ns) && ({
            let p = a.rooms@[i].participants@[k];
            let web = ws_targets(a.user_addrs@, b.rooms@[i].participants@, None);
            let others = sp_targets(b.rooms@[i].participants@, Some(id));
            &&& web.len() > 0 ==> (ns@[0] matches SyncNotification::WebSocket(w) && w.targets@ == web && (
            w.message.event_type matches PushEventType::EventWatchTogetherReady {
                room_code,
                user_id,
                username,
                is_ready,
            } && room_code@ == code && user_id == user_id_of(p.kind) && username@ == p.display_name@
                && is_ready == flag))
            &&& others.len() > 0 ==> (ns@[ns@.len() - 1] matches SyncNotification::Syncplay(s) && s.conn_ids@
                == others && (s.message matches SyncplayMessage::Ready { username, is_ready } && username@
                == p.display_name@ && is_ready == flag))
            &&& web.len() == 0 && others.len() == 0 ==> ns@.len() == 0
        }),
{
    lemma_seat(a.rooms@[i].participants@, id);
}

/// Buffering is noted for the one who buffers and for nobody else, and all web users are told. Playback is not
/// touched.
pub proof fn law_buffering_is_noted(
    a: SyncEngine,
    b: SyncEngine,
    id: ParticipantId,
    code: Seq<char>,
    name: Seq<char>,
    flag: bool,
    r: Result<Vec<SyncNotification>, &'static str>,
    i: int,
    k: int,
)
    requires
        buffering_set(a, b, code, id, name, flag, r),
        room_at(a.rooms@, code) == Some(i),
        seat(a.rooms@[i].participants@, id) == Some(k),
    ensures
        b.rooms@[i].participants@[k].is_buffering == flag,
        b.rooms@[i].participants@[k].is_ready == a.rooms@[i].participants@[k].is_ready,
        only_seat_changed(a.rooms@[i].participants@, b.rooms@[i].participants@, k),
        b.rooms@[i].playback_state == a.rooms@[i].playback_state,
        b.rooms@[i].playback_position == a.rooms@[i].playback_position,
        r matches Ok(ns) && ({
            let web = ws_targets(a.user_addrs@, b.rooms@[i].participants@, None);
            &&& web.len() > 0 ==> ns@.len() == 1 && (ns@[0] matches SyncNotification::WebSocket(w)
                && w.targets@ == web && (w.message.event_type matches PushEventType::EventWatchTogetherBuffering {
                room_code,
                user_id,
                username,
                is_buffering,
            } && room_code@ == code && user_id == user_id_of(a.rooms@[i].participants@[k].kind) && username@
                == name && is_buffering == flag))
            &&& web.len() == 0 ==> ns@.len() == 0
        }),
{
    lemma_seat(a.rooms@[i].participants@, id);
}

/// The file that somebody opens is noted for that one and for nobody else; the other Syncplay clients and all web
/// users are told.
pub proof fn law_files_are_noted(
    a: SyncEngine,
    b: SyncEngine,
    id: ParticipantId,
    code: Seq<char>,
    file: ParticipantFile,
    clock: Clock,
    r: Result<Vec<SyncNotification>, &'static str>,
    i: int,
    k: int,
)
    requires
        file_set(a, b, id, code, file, clock, r),
        room_at(a.rooms@, code) == Some(i),
        seat(a.rooms@[i].participants@, id) == Some(k),
    ensures
        b.rooms@[i].participants@[k].file == Some(file),
        b.rooms@[i].participants@[k].is_ready == a.rooms@[i].participants@[k].is_ready,
        only_seat_changed(a.rooms@[i].participants@, b.rooms@[i].participants@, k),
        b.rooms@[i].playback_state == a.rooms@[i].playback_state,
        r matches Ok(ns) && ({
            let others = sp_targets(b.rooms@[i].participants@, Some(id));
            let web = ws_targets(a.user_addrs@, b.rooms@[i].participants@, None);
            &&& others.len() > 0 ==> (ns@[0] matches SyncNotification::Syncplay(s) && s.conn_ids@ == others && (
            s.message matches SyncplayMessage::User { username, room_name, event, file: f } && username@
                == a.rooms@[i].participants@[k].display_name@ && room_name@ == a.rooms@[i].name@ && event
                is None && f == Some(file)))
            &&& web.len() > 0 ==> (ns@[ns@.len() - 1] matches SyncNotification::WebSocket(w) && w.targets@
                == web && w.message.event_type is EventWatchTogetherRoomUpdate)
        }),
{
    lemma_seat(a.rooms@[i].participants@, id);
}

/// What somebody says is kept as the last message of the room, under the name and the id of the one who says it,
/// and everybody is told: all web users, and the Syncplay clients but for the one who says it. Nothing else
/// changes.
pub proof fn law_messages_are_passed_on(
    a: SyncEngine,
    b: SyncEngine,
    id: ParticipantId,
    code: Seq<char>,
    name: Seq<char>,
    said: Seq<char>,
    clock: Clock,
    r: Result<Vec<SyncNotification>, &'static str>,
    i: int,
    k: int,
)
    requires
        chat_added(a, b, id, code, name, said, clock, r),
        room_at(a.rooms@, code) == Some(i),
        seat(a.rooms@[i].participants@, id) == Some(k),
    ensures
        ({
            let chat = b.rooms@[i].chat_messages@;
            let old_chat = a.rooms@[i].chat_messages@;
            &&& chat.len() > 0
            &&& chat[chat.len() - 1].text@ == said
            &&& chat[chat.len() - 1].username@ == name
            &&& chat[chat.len() - 1].timestamp_ms == clock.unix_ms
            &&& chat[chat.len() - 1].user_id == user_id_of(a.rooms@[i].participants@[k].kind)
            &&& old_chat.len() < MAX_CHAT_MESSAGES ==> chat.drop_last() == old_chat
            &&& old_chat.len() == MAX_CHAT_MESSAGES ==> chat.drop_last() == old_chat.drop_first()
        }),
        b.rooms@[i].participants == a.rooms@[i].participants,
        b.rooms@[i].playback_state == a.rooms@[i].playback_state,
        r matches Ok(ns) && ({
            let web = ws_targets(a.user_addrs@, b.rooms@[i].participants@, None);
            let others = sp_targets(b.rooms@[i].participants@, Some(id));
            &&& web.len() > 0 ==> (ns@[0] matches SyncNotification::WebSocket(w) && w.targets@ == web && (
            w.message.event_type matches PushEventType::EventWatchTogetherChat {
                room_code,
                user_id,
                username,
                text,
                timestamp_ms,
            } && room_code@ == code && username@ == name && text@ == said && timestamp_ms == clock.unix_ms))
            &&& others.len() > 0 ==> (ns@[ns@.len() - 1] matches SyncNotification::Syncplay(s) && s.conn_ids@
                == others && (s.message matches SyncplayMessage::Chat { username, message } && username@
                == name && message@ == said))
        }),
{
    lemma_seat(a.rooms@[i].participants@, id);
    let chat = b.rooms@[i].chat_messages@;
    let old_chat = a.rooms@[i].chat_messages@;
    if old_chat.len() < MAX_CHAT_MESSAGES {
        assert(chat.drop_last() =~= old_chat);
    } else if old_chat.len() == MAX_CHAT_MESSAGES {
        assert(chat.drop_last() =~= old_chat.drop_first());
    }
}

/// The host hands the role over to a member of the room: that one is the host then, nobody else is, and all web
/// users are told. Anybody else who tries is refused, and so is a stranger to the room.
pub proof fn law_hosts_hand_over(
    a: SyncEngine,
    b: SyncEngine,
    code: Seq<char>,
    from: ParticipantId,
    to: ParticipantId,
    clock: Clock,
    r: Result<Vec<SyncNotification>, &'static str>,
    i: int,
)
    requires
        host_transferred(a, b, code, from, to, clock, r),
        room_at(a.rooms@, code) == Some(i),
    ensures
        host_of(a.rooms@[i]) == Some(from) && seat(a.rooms@[i].participants@, to) is Some ==> {
            let ps = a.rooms@[i].participants@;
            let qs = b.rooms@[i].participants@;
            &&& qs.len() == ps.len()
            &&& forall|j: int|
                0 <= j < ps.len() ==> (#[trigger] qs[j]).is_host == (ps[j].id == to) && qs[j].id == ps[j].id
                    && qs[j].is_ready == ps[j].is_ready && qs[j].display_name == ps[j].display_name
            &&& r is Ok
            &&& ws_targets(a.user_addrs@, qs, None).len() > 0 ==> r->Ok_0@.len() == 1
        },
        host_of(a.rooms@[i]) != Some(from) || seat(a.rooms@[i].participants@, to) is None ==> r is Err && b
            == a,
{
}

/// The host alone decides who controls playback, and everybody on the web is told twice: of the mode, and of the
/// room.
pub proof fn law_hosts_set_the_mode(
    a: SyncEngine,
    b: SyncEngine,
    code: Seq<char>,
    id: ParticipantId,
    mode: ControlMode,
    clock: Clock,
    r: Result<Vec<SyncNotification>, &'static str>,
    i: int,
)
    requires
        mode_set(a, b, code, id, mode, clock, r),
        room_at(a.rooms@, code) == Some(i),
    ensures
        host_of(a.rooms@[i]) == Some(id) ==> {
            let web = ws_targets(a.user_addrs@, b.rooms@[i].participants@, None);
            &&& b.rooms@[i].control_mode == mode
            &&& b.rooms@[i].participants == a.rooms@[i].participants
            &&& b.rooms@[i].playback_state == a.rooms@[i].playback_state
            &&& r is Ok
            &&& web.len() > 0 ==> r->Ok_0@.len() == 2 && (r->Ok_0@[0] matches SyncNotification::WebSocket(w)
                && w.targets@ == web && (w.message.event_type matches PushEventType::EventWatchTogetherModeChanged {
                room_code,
                control_mode,
            } && room_code@ == code && control_mode@ == (match mode {
                ControlMode::HostOnly => "host_only"@,
                ControlMode::Egalitarian => "egalitarian"@,
            }))) && (r->Ok_0@[1] matches SyncNotification::WebSocket(w) && w.targets@ == web
                && w.message.event_type is EventWatchTogetherRoomUpdate)
        },
        host_of(a.rooms@[i]) != Some(id) ==> r is Err && b == a,
{
}

/// In a room that there is not, and for somebody who is not in the room, nothing is noted.
pub proof fn law_strangers_change_nothing(
    a: SyncEngine,
    b: SyncEngine,
    id: ParticipantId,
    code: Seq<char>,
    flag: bool,
    r: Result<Vec<SyncNotification>, &'static str>,
)
    requires
        ready_set(a, b, id, code, flag, r),
        room_at(a.rooms@, code) is None || seat(a.rooms@[room_at(a.rooms@, code)->0].participants@, id)
            is None,
    ensures
        b == a,
        r is Err,
{
}

}
