//! A Syncplay connection, from its first line to its end.
//!
//! Each connection is a participant in the engine's rooms. Reading and writing lines is up to the
//! caller; what a line leads to is decided here.

use vstd::prelude::*;

use crate::events::{PlaybackPosition, Seconds, WtParticipant};
use crate::sync_engine::activity::{chat_added, file_set, ready_set};
use crate::sync_engine::engine::{
    accepts, engine_wf, lemma_room_at, lemma_room_at_same_codes, md5_digest, md5_hex, opt_view,
    password_matches_digest, room_at, SyncEngine,
};
use crate::sync_engine::membership::{disconnected, joined_by_name, other_than};
use crate::sync_engine::notices::{is_list, SyncNotification, SyncplayMessage};
use crate::sync_engine::playback::{state_reported, PlaystateReport};
use crate::sync_engine::room::{
    synthetic_id, synthetic_user_id, Clock, ParticipantFile, ParticipantId, ParticipantKind,
    RoomInfo, RoomPlaybackSnapshot, SyncParticipant,
};
use crate::syncplay_proto::{
    is_file, participant_file, ready_of, ready_value, server_hello, ClientChat, ClientHello,
    ClientMessage, ClientPlaystate, ClientSet, ClientState, RoomSpec, ServerHello,
};
use crate::text::{ascii_lowered, contains, contains_str, same};

verus! {

/// A connection that has been silent for so many nanoseconds is dropped. Clients report about every
/// second, so such a connection is half open.
pub const IDLE_TIMEOUT_NANOS: u64 = 90_000_000_000;

/// What a connection keeps of the protocol: the counters of the `ignoringOnTheFly` handshake, and
/// latencies.
#[derive(Clone, Copy, Debug, PartialEq, Eq, Structural)]
pub struct ConnProto {
    /// The counter on the last state that the server pushed. The client echoes it; until then its own
    /// reports are out of date.
    pub server_iotf: u64,
    pub awaiting_server_echo: bool,
    /// The client's timestamp, to be echoed in replies.
    pub client_latency_calculation: Option<Seconds>,
    /// The server's estimate of the round trip time.
    pub server_rtt: Seconds,
}

/// A line from the server to a client.
#[derive(Debug)]
pub enum ServerLine {
    /// The server does not do TLS.
    NoTls,
    Hello(ServerHello),
    Error(&'static str),
    /// The state at the start; the client jumps to it.
    Initial {
        position: PlaybackPosition,
        paused: bool,
        server_time_ms: u64,
        server_iotf: u64,
    },
    /// A message of the engine; a state carries the counter.
    Engine { message: SyncplayMessage, counter: Option<u64> },
    /// The reply to a report.
    Reply {
        position: PlaybackPosition,
        paused: bool,
        server_time_ms: u64,
        server_rtt: Seconds,
        client_latency_calculation: Option<Seconds>,
        client_iotf: Option<u64>,
    },
}

/// A connection after the handshake.
#[derive(Debug)]
pub struct SyncplayConn {
    pub conn_id: u64,
    /// The code of its room.
    pub code: String,
    /// The name by which it is known in the room.
    pub username: String,
    pub proto: ConnProto,
}

/// What a line of the handshake calls for.
#[derive(Debug)]
pub enum HandshakeStep {
    /// Say that there is no TLS, and wait on.
    RefuseTls,
    /// The client has introduced itself.
    Hello(ClientHello),
    /// Wait on.
    Ignore,
}

/// What a line of the handshake calls for, where `parsed` is the message that it holds. Modern
/// clients ask for TLS first and wait for an answer.
pub open spec fn handshake_step(line: Seq<char>, parsed: Option<ClientMessage>) -> HandshakeStep {
    if contains_str(line, "\"TLS\""@) || contains_str(line, "startTLS"@) {
        HandshakeStep::RefuseTls
    } else {
        match parsed {
            Some(ClientMessage::Hello(h)) => HandshakeStep::Hello(h),
            _ => HandshakeStep::Ignore,
        }
    }
}

/// Decides on a line of the handshake.
pub fn handshake(line: &str, parsed: Option<ClientMessage>) -> (r: HandshakeStep)
    ensures
        r == handshake_step(line@, parsed),
{
    if contains(line, "\"TLS\"") || contains(line, "startTLS") {
        return HandshakeStep::RefuseTls;
    }
    match parsed {
        Some(ClientMessage::Hello(h)) => HandshakeStep::Hello(h),
        _ => HandshakeStep::Ignore,
    }
}

/// The server lets somebody in who supplies this password.
pub open spec fn server_accepts(configured: Seq<char>, supplied: Option<Seq<char>>) -> bool {
    configured.len() == 0 || match supplied {
        Some(s) => accepts(s, configured, md5_hex(configured)),
        None => false,
    }
}

/// Checks the password of a client against that of the server; an empty one lets everybody in.
pub fn server_password_ok(configured: &str, supplied: Option<&str>) -> (r: bool)
    ensures
        r == server_accepts(configured@, opt_view(supplied)),
{
    if configured.is_empty() {
        return true;
    }
    match supplied {
        None => false,
        Some(s) => password_matches_digest(s, configured, md5_digest(configured).as_str()),
    }
}

/// The name that goes with a user id.
pub open spec fn name_for(ps: Seq<WtParticipant>, user_id: i64) -> Option<Seq<char>>
    decreases ps.len(),
{
    if ps.len() == 0 {
        None
    } else {
        match name_for(ps.drop_last(), user_id) {
            Some(name) => Some(name),
            None => if ps.last().user_id == user_id {
                Some(ps.last().username@)
            } else {
                None
            },
        }
    }
}

/// Finds the name that goes with a user id.
fn find_name(ps: &Vec<WtParticipant>, user_id: i64) -> (r: Option<String>)
    ensures
        r is Some <==> name_for(ps@, user_id) is Some,
        r matches Some(name) ==> Some(name@) == name_for(ps@, user_id),
{
    let mut found: Option<String> = None;
    let mut i: usize = 0;
    assert(ps@.subrange(0, 0) =~= Seq::empty());
    while i < ps.len()
        invariant
            0 <= i <= ps@.len(),
            found is Some <==> name_for(ps@.subrange(0, i as int), user_id) is Some,
            found matches Some(name) ==> Some(name@) == name_for(
                ps@.subrange(0, i as int),
                user_id,
            ),
        decreases ps@.len() - i,
    {
        assert(ps@.subrange(0, i + 1).drop_last() =~= ps@.subrange(0, i as int));
        if found.is_none() && ps[i].user_id == user_id {
            found = Some(ps[i].username.clone());
        }
        i = i + 1;
    }
    assert(ps@.subrange(0, i as int) =~= ps@);
    found
}

/// `b` is the state `a` after a connection id was handed out and registered.
pub open spec fn connected(a: SyncEngine, b: SyncEngine) -> bool {
    &&& b.rooms == a.rooms
    &&& b.user_addrs == a.user_addrs
    &&& b.room_name_aliases == a.room_name_aliases
    &&& b.next_conn_id == a.next_conn_id + 1
    &&& b.syncplay_conns@ == if a.syncplay_conns@.contains(a.next_conn_id) {
        a.syncplay_conns@
    } else {
        a.syncplay_conns@.push(a.next_conn_id)
    }
}

/// `b` is the state `a` after a connection was taken off the register.
pub open spec fn unregistered(a: SyncEngine, b: SyncEngine, conn_id: u64) -> bool {
    &&& b.rooms == a.rooms
    &&& b.user_addrs == a.user_addrs
    &&& b.room_name_aliases == a.room_name_aliases
    &&& b.next_conn_id == a.next_conn_id
    &&& b.syncplay_conns@ == a.syncplay_conns@.filter(other_than(conn_id))
}

/// `p` is the participant for a connection.
pub open spec fn is_conn_participant(p: SyncParticipant, conn_id: u64, name: Seq<char>) -> bool {
    &&& p.id == ParticipantId::Syncplay(conn_id)
    &&& p.display_name@ == name
    &&& p.kind == (ParticipantKind::SyncplayClient { conn_id })
    &&& !p.is_host
    &&& !p.is_ready
    &&& !p.is_buffering
    &&& p.latency_ms == 0
    &&& p.file is None
}

/// The name that a client asks for.
pub open spec fn wanted_name(hello: ClientHello) -> Seq<char> {
    match hello.username {
        Some(name) => name@,
        None => "Anonymous"@,
    }
}

/// The room that a client asks for.
pub open spec fn wanted_room(hello: ClientHello) -> Seq<char> {
    match hello.room {
        Some(room) => room.spec_name(),
        None => "default"@,
    }
}

/// The password that a client supplies.
pub open spec fn supplied_password(hello: ClientHello) -> Option<Seq<char>> {
    match hello.password {
        Some(p) => Some(p@),
        None => None,
    }
}

/// A connection that was let in.
#[derive(Debug)]
pub struct Opened {
    pub conn: SyncplayConn,
    /// What the client is sent first.
    pub lines: Vec<ServerLine>,
    /// What the others are told.
    pub notifs: Vec<SyncNotification>,
}

/// The lines by which the server greets a client: its introduction, the state of the room, and who
/// is in it.
pub open spec fn greets(
    lines: Seq<ServerLine>,
    conn: SyncplayConn,
    room_name: Seq<char>,
    day: Seq<char>,
    info: RoomInfo,
    engine: SyncEngine,
    clock: Clock,
) -> bool {
    &&& lines.len() == 3
    &&& lines[0] matches ServerLine::Hello(h) && h.username@ == conn.username@ && h.room_name@
        == room_name && h.version@ == "1.7.3"@ && (h.motd is Some <==> day.len() > 0) && (h.motd is Some
        ==> h.motd->0@ == day)
    &&& lines[1] == (ServerLine::Initial {
        position: info.playback_position,
        paused: info.playback_state@ == "paused"@,
        server_time_ms: clock.unix_ms,
        server_iotf: 1,
    })
    &&& lines[2] matches ServerLine::Engine { message, counter } && counter is None
        && room_at(engine.rooms@, conn.code@) is Some && is_list(
        message,
        engine.rooms@[room_at(engine.rooms@, conn.code@)->0],
        clock,
    )
}

/// `o` is a connection let into its room.
pub open spec fn let_in(
    a: SyncEngine,
    b: SyncEngine,
    hello: ClientHello,
    day: Seq<char>,
    clock: Clock,
    o: Opened,
) -> bool {
    let conn_id = a.next_conn_id;
    exists|mid: SyncEngine, p: SyncParticipant, info: RoomInfo|
        {
            &&& connected(a, mid)
            &&& is_conn_participant(p, conn_id, wanted_name(hello))
            &&& #[trigger] joined_by_name(
                mid,
                b,
                p,
                wanted_room(hello),
                supplied_password(hello),
                clock,
                Ok((o.conn.code, info, o.notifs)),
            )
            &&& o.conn.conn_id == conn_id
            &&& o.conn.username@ == (match name_for(info.participants@, synthetic_id(conn_id)) {
                Some(name) => name,
                None => wanted_name(hello),
            })
            &&& o.conn.proto == (ConnProto {
                server_iotf: 1,
                awaiting_server_echo: true,
                client_latency_calculation: None,
                server_rtt: Seconds { bits: 0 },
            })
            &&& greets(o.lines@, o.conn, wanted_room(hello), day, info, b, clock)
        }
}

/// The room refused the connection, with this word; nothing of it stays but its used-up id.
pub open spec fn kept_out(
    a: SyncEngine,
    b: SyncEngine,
    hello: ClientHello,
    clock: Clock,
    why: &'static str,
) -> bool {
    exists|m1: SyncEngine, m2: SyncEngine, p: SyncParticipant|
        {
            &&& connected(a, m1)
            &&& is_conn_participant(p, a.next_conn_id, wanted_name(hello))
            &&& #[trigger] joined_by_name(
                m1,
                m2,
                p,
                wanted_room(hello),
                supplied_password(hello),
                clock,
                Err(why),
            )
            &&& unregistered(m2, b, a.next_conn_id)
        }
}

/// Whoever joined by name is in a room that exists under the code returned.
proof fn lemma_joined_room_exists(
    a: SyncEngine,
    b: SyncEngine,
    p: SyncParticipant,
    name: Seq<char>,
    password: Option<Seq<char>>,
    clock: Clock,
    r: Result<(String, RoomInfo, Vec<SyncNotification>), &'static str>,
)
    requires
        joined_by_name(a, b, p, name, password, clock, r),
        r is Ok,
    ensures
        room_at(b.rooms@, (r->Ok_0).0@) is Some,
{
    let code = (r->Ok_0).0@;
    lemma_room_at(b.rooms@, code);
    if let Some(c) = crate::sync_engine::membership::code_for(a, name) {
        lemma_room_at(a.rooms@, c);
        assert forall|j: int| 0 <= j < a.rooms@.len() implies (#[trigger] a.rooms@[j]).code@
            == b.rooms@[j].code@ by {}
        lemma_room_at_same_codes(a.rooms@, b.rooms@, c);
    } else {
        assert(b.rooms@[b.rooms@.len() - 1].code@ == code);
    }
}

/// Lets a client that has introduced itself into the room that it asks for.
pub fn open(
    engine: &mut SyncEngine,
    hello: ClientHello,
    server_password: &str,
    motd: &str,
    clock: Clock,
) -> (r: Result<Opened, ServerLine>)
    requires
        engine_wf(*old(engine)),
        old(engine).next_conn_id < u64::MAX,
    ensures
        engine_wf(*final(engine)),
        match r {
            Ok(o) => server_accepts(server_password@, supplied_password(hello)) && let_in(
                *old(engine),
                *final(engine),
                hello,
                motd@,
                clock,
                o,
            ),
            Err(line) => if server_accepts(server_password@, supplied_password(hello)) {
                line matches ServerLine::Error(why) && kept_out(
                    *old(engine),
                    *final(engine),
                    hello,
                    clock,
                    why,
                )
            } else {
                line matches ServerLine::Error(why) && why@ == "Wrong password"@ && *final(engine)
                    == *old(engine)
            },
        },
{
    let ghost start = *engine;
    let password: Option<&str> = match &hello.password {
        Some(p) => Some(p.as_str()),
        None => None,
    };
    if !server_password_ok(server_password, password) {
        return Err(ServerLine::Error("Wrong password"));
    }
    let username = match &hello.username {
        Some(name) => name.clone(),
        None => "Anonymous".to_owned(),
    };
    let room_name = match &hello.room {
        Some(room) => room.name().to_owned(),
        None => "default".to_owned(),
    };
    let conn_id = engine.allocate_conn_id();
    let participant = SyncParticipant {
        id: ParticipantId::Syncplay(conn_id),
        display_name: username.clone(),
        kind: ParticipantKind::SyncplayClient { conn_id },
        is_host: false,
        is_ready: false,
        is_buffering: false,
        latency_ms: 0,
        file: None,
    };
    engine.register_syncplay_conn(conn_id);
    let ghost mid = *engine;
    proof {
        assert(connected(start, mid));
        assert(is_conn_participant(participant, conn_id, wanted_name(hello)));
    }
    let ghost p0 = participant;
    let joined = engine.join_room_by_name(participant, room_name.as_str(), password, clock);
    let ghost after = *engine;
    match joined {
        Err(why) => {
            engine.unregister_syncplay_conn(conn_id);
            proof {
                assert(joined_by_name(
                    mid,
                    after,
                    p0,
                    wanted_room(hello),
                    supplied_password(hello),
                    clock,
                    Err(why),
                ));
                assert(unregistered(after, *engine, conn_id));
            }
            Err(ServerLine::Error(why))
        },
        Ok((code, info, notifs)) => {
            proof {
                lemma_joined_room_exists(
                    mid,
                    after,
                    p0,
                    wanted_room(hello),
                    supplied_password(hello),
                    clock,
                    Ok((code, info, notifs)),
                );
            }
            let username = match find_name(&info.participants, synthetic_user_id(conn_id)) {
                Some(name) => name,
                None => username,
            };
            let mut lines: Vec<ServerLine> = Vec::new();
            lines.push(
                ServerLine::Hello(
                    server_hello(username.as_str(), room_name.as_str(), "1.7.3", motd),
                ),
            );
            lines.push(
                ServerLine::Initial {
                    position: info.playback_position,
                    paused: same(info.playback_state.as_str(), "paused"),
                    server_time_ms: clock.unix_ms,
                    server_iotf: 1,
                },
            );
            if let Some(message) = engine.syncplay_list(code.as_str(), clock) {
                lines.push(ServerLine::Engine { message, counter: None });
            }
            let proto = ConnProto {
                server_iotf: 1,
                awaiting_server_echo: true,
                client_latency_calculation: None,
                server_rtt: Seconds { bits: 0 },
            };
            let opened = Opened {
                conn: SyncplayConn { conn_id, code, username, proto },
                lines,
                notifs,
            };
            proof {
                assert(joined_by_name(
                    mid,
                    after,
                    p0,
                    wanted_room(hello),
                    supplied_password(hello),
                    clock,
                    Ok((opened.conn.code, info, opened.notifs)),
                ));
                assert(let_in(start, *engine, hello, motd@, clock, opened));
            }
            Ok(opened)
        },
    }
}

/// What a message of a client leads to.
#[derive(Debug)]
pub struct Step {
    /// What the client is sent.
    pub lines: Vec<ServerLine>,
    /// What the others are told.
    pub notifs: Vec<SyncNotification>,
    /// Whether the connection goes on.
    pub goes_on: bool,
}

/// The protocol state after a report was heard: latencies are noted, and an echo of the last counter
/// ends the wait.
pub open spec fn proto_after(proto: ConnProto, state: ClientState) -> ConnProto {
    let echoed = match state.ignoring_on_the_fly {
        Some(iotf) => match iotf.server {
            Some(echo) => echo >= proto.server_iotf,
            None => false,
        },
        None => false,
    };
    ConnProto {
        server_iotf: proto.server_iotf,
        awaiting_server_echo: proto.awaiting_server_echo && !echoed,
        client_latency_calculation: match state.ping {
            Some(ping) => ping.client_latency_calculation,
            None => proto.client_latency_calculation,
        },
        server_rtt: match state.ping {
            Some(ping) => match ping.server_rtt {
                Some(rtt) => rtt,
                None => proto.server_rtt,
            },
            None => proto.server_rtt,
        },
    }
}

/// The client's own counter, which marks a deliberate action of its user.
pub open spec fn client_counter(state: ClientState) -> Option<u64> {
    match state.ignoring_on_the_fly {
        Some(iotf) => iotf.client,
        None => None,
    }
}

/// The playback state that a report is taken to make: none while the client may still be reacting to
/// a state that the server pushed, unless its user acted.
pub open spec fn heard_playstate(state: ClientState, awaiting: bool) -> Option<PlaystateReport> {
    match state.playstate {
        Some(
            ClientPlaystate { position: Some(position), paused: Some(paused), do_seek, near },
        ) => if awaiting && client_counter(state) is None {
            None
        } else {
            Some(
                PlaystateReport {
                    position,
                    paused,
                    do_seek: match do_seek {
                        Some(seek) => seek,
                        None => false,
                    },
                    near,
                },
            )
        },
        _ => None,
    }
}

/// The latency that a report gives.
pub open spec fn heard_latency(state: ClientState) -> u32 {
    match state.ping {
        Some(ping) => match ping.latency_ms {
            Some(ms) => ms,
            None => 0,
        },
        None => 0,
    }
}

/// What a state report leads to.
pub open spec fn state_step(
    a: SyncEngine,
    b: SyncEngine,
    before: SyncplayConn,
    after: SyncplayConn,
    state: ClientState,
    clock: Clock,
    step: Step,
) -> bool {
    let proto = proto_after(before.proto, state);
    &&& after == SyncplayConn { proto, ..before }
    &&& exists|r: Result<(RoomPlaybackSnapshot, Vec<SyncNotification>), &'static str>|
        {
            &&& #[trigger] state_reported(
                a,
                b,
                ParticipantId::Syncplay(before.conn_id),
                before.code@,
                heard_playstate(state, proto.awaiting_server_echo),
                heard_latency(state),
                clock,
                r,
            )
            &&& match r {
                Err(_) => !step.goes_on && step.lines@.len() == 0 && step.notifs@.len() == 0,
                Ok(p) => {
                    &&& step.goes_on
                    &&& step.notifs == p.1
                    &&& step.lines@ == seq![
                        ServerLine::Reply {
                            position: p.0.position,
                            paused: p.0.paused,
                            server_time_ms: clock.unix_ms,
                            server_rtt: proto.server_rtt,
                            client_latency_calculation: proto.client_latency_calculation,
                            client_iotf: client_counter(state),
                        },
                    ]
                },
            }
        }
}

/// The notifications of an operation that may have failed.
pub open spec fn told(r: Result<Vec<SyncNotification>, &'static str>) -> Seq<SyncNotification> {
    match r {
        Ok(ns) => ns@,
        Err(_) => Seq::empty(),
    }
}

/// What the text of a chat message leads to.
pub open spec fn chat_step(
    a: SyncEngine,
    b: SyncEngine,
    conn: SyncplayConn,
    message: Option<String>,
    clock: Clock,
    notifs: Seq<SyncNotification>,
) -> bool {
    match message {
        None => b == a && notifs.len() == 0,
        Some(text) => exists|r: Result<Vec<SyncNotification>, &'static str>|
            #[trigger] chat_added(
                a,
                b,
                ParticipantId::Syncplay(conn.conn_id),
                conn.code@,
                conn.username@,
                text@,
                clock,
                r,
            ) && notifs == told(r),
    }
}

/// What the file of a change of settings leads to.
pub open spec fn file_step(
    a: SyncEngine,
    b: SyncEngine,
    conn: SyncplayConn,
    set: ClientSet,
    clock: Clock,
    notifs: Seq<SyncNotification>,
) -> bool {
    match set.file {
        None => b == a && notifs.len() == 0,
        Some(fields) => exists|
            file: ParticipantFile,
            r: Result<Vec<SyncNotification>, &'static str>,
        |
            is_file(file, fields) && #[trigger] file_set(
                a,
                b,
                ParticipantId::Syncplay(conn.conn_id),
                conn.code@,
                file,
                clock,
                r,
            ) && notifs == told(r),
    }
}

/// What the readiness of a change of settings leads to.
pub open spec fn ready_step(
    a: SyncEngine,
    b: SyncEngine,
    conn: SyncplayConn,
    set: ClientSet,
    notifs: Seq<SyncNotification>,
) -> bool {
    match set.ready {
        Some(flags) if ready_of(flags@, conn.username@) is Some => exists|
            r: Result<Vec<SyncNotification>, &'static str>,
        |
            #[trigger] ready_set(
                a,
                b,
                ParticipantId::Syncplay(conn.conn_id),
                conn.code@,
                ready_of(flags@, conn.username@)->0,
                r,
            ) && notifs == told(r),
        _ => b == a && notifs.len() == 0,
    }
}

/// What a change of settings leads to: the file first, the readiness after it.
pub open spec fn set_step(
    a: SyncEngine,
    b: SyncEngine,
    conn: SyncplayConn,
    set: ClientSet,
    clock: Clock,
    notifs: Seq<SyncNotification>,
) -> bool {
    exists|mid: SyncEngine, n1: Seq<SyncNotification>, n2: Seq<SyncNotification>|
        #[trigger] file_step(a, mid, conn, set, clock, n1) && #[trigger] ready_step(
            mid,
            b,
            conn,
            set,
            n2,
        ) && notifs == n1 + n2
}

/// What a message of a client leads to.
pub open spec fn message_step(
    a: SyncEngine,
    b: SyncEngine,
    before: SyncplayConn,
    after: SyncplayConn,
    message: ClientMessage,
    clock: Clock,
    step: Step,
) -> bool {
    match message {
        ClientMessage::State(state) => state_step(a, b, before, after, state, clock, step),
        ClientMessage::Chat(chat) => {
            &&& after == before && step.goes_on && step.lines@.len() == 0
            &&& chat_step(a, b, before, chat.message, clock, step.notifs@)
        },
        ClientMessage::Settings(set) => {
            &&& after == before && step.goes_on && step.lines@.len() == 0
            &&& set_step(a, b, before, set, clock, step.notifs@)
        },
        ClientMessage::List => {
            &&& after == before && b == a && step.goes_on && step.notifs@.len() == 0
            &&& match room_at(a.rooms@, before.code@) {
                None => step.lines@.len() == 0,
                Some(i) => step.lines@.len() == 1 && (step.lines@[0] matches ServerLine::Engine {
                    message,
                    counter,
                } && counter is None && is_list(message, a.rooms@[i], clock)),
            }
        },
        ClientMessage::Hello(_) => after == before && b == a && step.goes_on && step.notifs@.len()
            == 0 && step.lines@.len() == 0,
    }
}

/// The notifications of an operation that may have failed.
fn or_none(r: Result<Vec<SyncNotification>, &'static str>) -> (v: Vec<SyncNotification>)
    ensures
        v@ == told(r),
{
    match r {
        Ok(ns) => ns,
        Err(_) => Vec::new(),
    }
}

impl SyncplayConn {
    /// Puts the counter on a state that the server pushes, so that reports which are under way do not
    /// undo it. Any other message goes out as it is.
    pub fn tag_state_with_iotf(&mut self, message: SyncplayMessage) -> (r: ServerLine)
        requires
            old(self).proto.server_iotf < u64::MAX,
        ensures
            message is State ==> {
                &&& r == (ServerLine::Engine {
                    message,
                    counter: Some((old(self).proto.server_iotf + 1) as u64),
                })
                &&& *final(self) == SyncplayConn {
                    proto: ConnProto {
                        server_iotf: (old(self).proto.server_iotf + 1) as u64,
                        awaiting_server_echo: true,
                        ..old(self).proto
                    },
                    ..*old(self)
                }
            },
            !(message is State) ==> r == (ServerLine::Engine { message, counter: None })
                && *final(self) == *old(self),
    {
        match message {
            SyncplayMessage::State { .. } => {
                self.proto.server_iotf = self.proto.server_iotf + 1;
                self.proto.awaiting_server_echo = true;
                ServerLine::Engine { message, counter: Some(self.proto.server_iotf) }
            },
            _ => ServerLine::Engine { message, counter: None },
        }
    }

    /// Handles a state report.
    fn on_state(&mut self, engine: &mut SyncEngine, state: ClientState, clock: Clock) -> (r: Step)
        requires
            engine_wf(*old(engine)),
        ensures
            engine_wf(*final(engine)),
            state_step(
                *old(engine),
                *final(engine),
                *old(self),
                *final(self),
                state,
                clock,
                r,
            ),
    {
        let mut latency_ms: u32 = 0;
        if let Some(ping) = state.ping {
            if let Some(ms) = ping.latency_ms {
                latency_ms = ms;
            }
            self.proto.client_latency_calculation = ping.client_latency_calculation;
            if let Some(rtt) = ping.server_rtt {
                self.proto.server_rtt = rtt;
            }
        }
        let mut client_iotf: Option<u64> = None;
        if let Some(iotf) = state.ignoring_on_the_fly {
            if let Some(echo) = iotf.server {
                if echo >= self.proto.server_iotf {
                    self.proto.awaiting_server_echo = false;
                }
            }
            client_iotf = iotf.client;
        }
        let mut playstate: Option<PlaystateReport> = None;
        if let Some(ps) = state.playstate {
            if let Some(position) = ps.position {
                if let Some(paused) = ps.paused {
                    if !(self.proto.awaiting_server_echo && client_iotf.is_none()) {
                        let do_seek = match ps.do_seek {
                            Some(seek) => seek,
                            None => false,
                        };
                        playstate = Some(
                            PlaystateReport { position, paused, do_seek, near: ps.near },
                        );
                    }
                }
            }
        }
        proof {
            assert(self.proto == proto_after(old(self).proto, state));
            assert(playstate == heard_playstate(state, self.proto.awaiting_server_echo));
        }
        let mut lines: Vec<ServerLine> = Vec::new();
        let r = engine.report_state(
            ParticipantId::Syncplay(self.conn_id),
            self.code.as_str(),
            playstate,
            latency_ms,
            clock,
        );
        let ghost reported = r;
        proof {
            assert(state_reported(
                *old(engine),
                *engine,
                ParticipantId::Syncplay(old(self).conn_id),
                old(self).code@,
                heard_playstate(state, self.proto.awaiting_server_echo),
                heard_latency(state),
                clock,
                reported,
            ));
        }
        match r {
            Err(_) => Step { lines, notifs: Vec::new(), goes_on: false },
            Ok((snapshot, notifs)) => {
                lines.push(
                    ServerLine::Reply {
                        position: snapshot.position,
                        paused: snapshot.paused,
                        server_time_ms: clock.unix_ms,
                        server_rtt: self.proto.server_rtt,
                        client_latency_calculation: self.proto.client_latency_calculation,
                        client_iotf,
                    },
                );
                proof {
                    assert(lines@ =~= seq![lines@[0]]);
                    assert(reported == Ok::<
                        (RoomPlaybackSnapshot, Vec<SyncNotification>),
                        &'static str,
                    >((snapshot, notifs)));
                }
                Step { lines, notifs, goes_on: true }
            },
        }
    }

    /// Handles a change of settings.
    fn on_set(&self, engine: &mut SyncEngine, set: ClientSet, clock: Clock) -> (r: Vec<
        SyncNotification,
    >)
        requires
            engine_wf(*old(engine)),
        ensures
            engine_wf(*final(engine)),
            set_step(*old(engine), *final(engine), *self, set, clock, r@),
    {
        let ghost start = *engine;
        let ghost set0 = set;
        let pid = ParticipantId::Syncplay(self.conn_id);
        let mut notifs: Vec<SyncNotification> = Vec::new();
        let ClientSet { file, ready } = set;
        if let Some(fields) = file {
            let file = participant_file(fields);
            let r = engine.set_file(pid, self.code.as_str(), file, clock);
            proof {
                assert(file_set(start, *engine, pid, self.code@, file, clock, r));
            }
            notifs = or_none(r);
        }
        let ghost mid = *engine;
        let ghost n1 = notifs@;
        proof {
            assert(file_step(start, mid, *self, set0, clock, n1));
        }
        let ghost mut n2 = Seq::<SyncNotification>::empty();
        if let Some(flags) = ready {
            if let Some(is_ready) = ready_value(&flags, self.username.as_str()) {
                let r = engine.set_ready(pid, self.code.as_str(), is_ready);
                proof {
                    assert(ready_set(mid, *engine, pid, self.code@, is_ready, r));
                    n2 = told(r);
                }
                let mut more = or_none(r);
                notifs.append(&mut more);
            }
        }
        proof {
            assert(ready_step(mid, *engine, *self, set0, n2));
            assert(notifs@ =~= n1 + n2);
        }
        notifs
    }

    /// Handles a message of the client.
    pub fn on_message(&mut self, engine: &mut SyncEngine, message: ClientMessage, clock: Clock) -> (r:
        Step)
        requires
            engine_wf(*old(engine)),
        ensures
            engine_wf(*final(engine)),
            message_step(
                *old(engine),
                *final(engine),
                *old(self),
                *final(self),
                message,
                clock,
                r,
            ),
    {
        match message {
            ClientMessage::State(state) => self.on_state(engine, state, clock),
            ClientMessage::Chat(chat) => {
                let ghost start = *engine;
                let mut notifs: Vec<SyncNotification> = Vec::new();
                if let Some(text) = chat.message {
                    let ghost said = text@;
                    let pid = ParticipantId::Syncplay(self.conn_id);
                    let r = engine.add_chat(
                        pid,
                        self.code.as_str(),
                        self.username.as_str(),
                        text,
                        clock,
                    );
                    proof {
                        assert(chat_added(
                            start,
                            *engine,
                            pid,
                            self.code@,
                            self.username@,
                            said,
                            clock,
                            r,
                        ));
                    }
                    notifs = or_none(r);
                }
                Step { lines: Vec::new(), notifs, goes_on: true }
            },
            ClientMessage::Settings(set) => {
                let notifs = self.on_set(engine, set, clock);
                Step { lines: Vec::new(), notifs, goes_on: true }
            },
            ClientMessage::List => {
                let mut lines: Vec<ServerLine> = Vec::new();
                if let Some(message) = engine.syncplay_list(self.code.as_str(), clock) {
                    lines.push(ServerLine::Engine { message, counter: None });
                }
                Step { lines, notifs: Vec::new(), goes_on: true }
            },
            ClientMessage::Hello(_) => Step {
                lines: Vec::new(),
                notifs: Vec::new(),
                goes_on: true,
            },
        }
    }

    /// Ends the connection: its participant leaves.
    pub fn close(&self, engine: &mut SyncEngine, clock: Clock) -> (r: Option<Vec<SyncNotification>>)
        requires
            engine_wf(*old(engine)),
        ensures
            engine_wf(*final(engine)),
            exists|mid: SyncEngine|
                unregistered(*old(engine), mid, self.conn_id) && #[trigger] disconnected(
                    mid,
                    *final(engine),
                    ParticipantId::Syncplay(self.conn_id),
                    clock,
                    r,
                ),
    {
        let ghost start = *engine;
        engine.unregister_syncplay_conn(self.conn_id);
        let ghost mid = *engine;
        proof {
            assert(unregistered(start, mid, self.conn_id));
        }
        let r = engine.handle_disconnect(ParticipantId::Syncplay(self.conn_id), clock);
        proof {
            assert(disconnected(
                mid,
                *engine,
                ParticipantId::Syncplay(self.conn_id),
                clock,
                r,
            ));
        }
        r
    }
}

/// A connection that was last heard at one time has been silent too long at another.
pub open spec fn is_silent(last_inbound_nanos: u64, now_nanos: u64) -> bool {
    now_nanos - last_inbound_nanos >= IDLE_TIMEOUT_NANOS
}

/// Whether a connection that was last heard at one time has been silent too long at another.
pub fn is_idle(last_inbound_nanos: u64, now_nanos: u64) -> (r: bool)
    ensures
        r == is_silent(last_inbound_nanos, now_nanos),
{
    now_nanos >= last_inbound_nanos && now_nanos - last_inbound_nanos >= IDLE_TIMEOUT_NANOS
}

/// A state that the server has pushed is not undone by reports that were under way: until the client
/// has echoed its counter, or its user has acted, no playback state of the client's is heard.
pub proof fn law_stale_reports_are_not_heard(proto: ConnProto, state: ClientState)
    requires
        proto.awaiting_server_echo,
        client_counter(state) is None,
        state.ignoring_on_the_fly matches Some(iotf) ==> (iotf.server matches Some(echo) ==> echo
            < proto.server_iotf),
    ensures
        heard_playstate(state, proto_after(proto, state).awaiting_server_echo) is None,
        proto_after(proto, state).awaiting_server_echo,
{
}

/// A client that asks for TLS is told that there is none; one that introduces itself is heard; anything else is
/// waited out.
pub proof fn law_handshakes_end_with_an_introduction(line: Seq<char>, parsed: Option<ClientMessage>, h: ClientHello)
    ensures
        contains_str(line, "\"TLS\""@) || contains_str(line, "startTLS"@) ==> handshake_step(line, parsed)
            is RefuseTls,
        !contains_str(line, "\"TLS\""@) && !contains_str(line, "startTLS"@) ==> handshake_step(
            line,
            Some(ClientMessage::Hello(h)),
        ) == HandshakeStep::Hello(h) && handshake_step(line, None) is Ignore && handshake_step(
            line,
            Some(ClientMessage::List),
        ) is Ignore,
{
}

/// A server without a password lets everybody in; one with a password nobody who supplies none, and those who
/// supply it, or its MD5 digest in letters of any case.
pub proof fn law_server_passwords(configured: Seq<char>, supplied: Seq<char>)
    ensures
        server_accepts(Seq::empty(), Some(supplied)),
        server_accepts(Seq::empty(), None),
        configured.len() > 0 ==> !server_accepts(configured, None),
        server_accepts(configured, Some(configured)),
        configured.len() > 0 && server_accepts(configured, Some(supplied)) ==> supplied == configured
            || ascii_lowered(supplied) == ascii_lowered(md5_hex(configured)),
{
}

/// What a client reports of its playback is heard as it is, unless it may be out of date: that is so while the
/// server waits for an echo of its own state, and the user has not acted.
pub proof fn law_reports_are_heard(state: ClientState, awaiting: bool, play: ClientPlaystate)
    requires
        state.playstate == Some(play),
    ensures
        play.position is Some && play.paused is Some && (!awaiting || client_counter(state) is Some) ==> (
        heard_playstate(state, awaiting) matches Some(p) && p.position == play.position->0 && p.paused
            == play.paused->0 && p.do_seek == (play.do_seek == Some(true)) && p.near == play.near),
        play.position is None || play.paused is None ==> heard_playstate(state, awaiting) is None,
        awaiting && client_counter(state) is None ==> heard_playstate(state, awaiting) is None,
{
}

/// The server waits for an echo until the client has echoed the last counter, or a later one. Latencies are
/// taken from the client's ping, where there is one.
pub proof fn law_echoes_end_the_wait(proto: ConnProto, state: ClientState)
    ensures
        proto_after(proto, state).server_iotf == proto.server_iotf,
        state.ignoring_on_the_fly matches Some(iotf) ==> (iotf.server matches Some(echo) ==> (echo
            >= proto.server_iotf ==> !proto_after(proto, state).awaiting_server_echo)),
        state.ignoring_on_the_fly is None ==> proto_after(proto, state).awaiting_server_echo
            == proto.awaiting_server_echo,
        !proto.awaiting_server_echo ==> !proto_after(proto, state).awaiting_server_echo,
        state.ping matches Some(ping) ==> proto_after(proto, state).client_latency_calculation
            == ping.client_latency_calculation && (ping.server_rtt matches Some(rtt) ==> proto_after(
            proto,
            state,
        ).server_rtt == rtt) && (ping.latency_ms matches Some(ms) ==> heard_latency(state) == ms),
        state.ping is None ==> proto_after(proto, state).client_latency_calculation
            == proto.client_latency_calculation && proto_after(proto, state).server_rtt == proto.server_rtt,
{
}

/// A report of somebody in the room is answered with the state of the room, and the client's own counter and
/// timestamp come back with it; a report to a room that there is not ends the connection.
pub proof fn law_reports_are_answered(
    a: SyncEngine,
    b: SyncEngine,
    before: SyncplayConn,
    after: SyncplayConn,
    state: ClientState,
    clock: Clock,
    step: Step,
)
    requires
        message_step(a, b, before, after, ClientMessage::State(state), clock, step),
    ensures
        after.conn_id == before.conn_id,
        after.code == before.code,
        after.username == before.username,
        step.goes_on ==> step.lines@.len() == 1 && (step.lines@[0] matches ServerLine::Reply {
            position,
            paused,
            server_time_ms,
            server_rtt,
            client_latency_calculation,
            client_iotf,
        } && server_time_ms == clock.unix_ms && client_latency_calculation
            == after.proto.client_latency_calculation && server_rtt == after.proto.server_rtt && client_iotf
            == (match state.ignoring_on_the_fly {
            Some(iotf) => iotf.client,
            None => None,
        })),
        !step.goes_on ==> step.lines@.len() == 0 && step.notifs@.len() == 0,
{
}

/// A request for the list is answered with everybody who is in the room, and nothing changes.
pub proof fn law_lists_are_given(
    a: SyncEngine,
    b: SyncEngine,
    before: SyncplayConn,
    after: SyncplayConn,
    clock: Clock,
    step: Step,
    i: int,
)
    requires
        message_step(a, b, before, after, ClientMessage::List, clock, step),
        room_at(a.rooms@, before.code@) == Some(i),
    ensures
        b == a,
        after == before,
        step.goes_on,
        step.notifs@.len() == 0,
        step.lines@.len() == 1,
        step.lines@[0] matches ServerLine::Engine { message, counter } && (message matches SyncplayMessage::List {
            room_name,
            users,
        } && room_name@ == a.rooms@[i].name@ && users@.len() == a.rooms@[i].participants@.len() && forall|j: int|
            0 <= j < users@.len() ==> (#[trigger] users@[j]).name@ == a.rooms@[i].participants@[j].display_name@
                && users@[j].controller == a.rooms@[i].participants@[j].is_host && users@[j].is_ready
                == a.rooms@[i].participants@[j].is_ready),
{
}

/// What a client says is passed on in its name.
pub proof fn law_chat_is_passed_on(
    a: SyncEngine,
    b: SyncEngine,
    before: SyncplayConn,
    after: SyncplayConn,
    text: String,
    clock: Clock,
    step: Step,
)
    requires
        message_step(
            a,
            b,
            before,
            after,
            ClientMessage::Chat((ClientChat { message: Some(text) })),
            clock,
            step,
        ),
    ensures
        step.goes_on,
        after == before,
        exists|r: Result<Vec<SyncNotification>, &'static str>|
            #[trigger] chat_added(
                a,
                b,
                ParticipantId::Syncplay(before.conn_id),
                before.code@,
                before.username@,
                text@,
                clock,
                r,
            ) && (r matches Ok(ns) ==> step.notifs@ == ns@),
{
}

/// A client is known by its connection and by the name that it asks for, or "Anonymous", and is no host.
pub proof fn law_clients_join_under_their_name(p: SyncParticipant, conn_id: u64, hello: ClientHello)
    requires
        is_conn_participant(p, conn_id, wanted_name(hello)),
    ensures
        p.id == ParticipantId::Syncplay(conn_id),
        hello.username matches Some(name) ==> p.display_name@ == name@,
        hello.username is None ==> p.display_name@ == "Anonymous"@,
        !p.is_host,
        !p.is_ready,
        !p.is_buffering,
        hello.room is None ==> wanted_room(hello) == "default"@,
        hello.room matches Some(RoomSpec::Named { name }) ==> wanted_room(hello) == name@,
        hello.room matches Some(RoomSpec::Simple(name)) ==> wanted_room(hello) == name@,
{
}

/// A connection is dropped after a minute and a half without a word.
pub proof fn law_silent_connections_are_dropped(last: u64, now: u64)
    ensures
        is_silent(last, now) <==> now - last >= 90 * 1_000_000_000,
{
}

}
