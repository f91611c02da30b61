use dim::events::{PushEventType, Seconds};
use dim::sync_engine::engine::SyncEngine;
use dim::sync_engine::notices::{SocketAddr, SyncNotification};
use dim::sync_engine::room::{
    Clock, ControlMode, ParticipantId, ParticipantKind, PlaybackState, RoomInfo, SyncParticipant,
};

fn at(nanos: u64) -> Clock {
    Clock { monotonic_nanos: nanos, unix_ms: 1_700_000_000_000 + nanos / 1_000_000 }
}

fn secs(s: f64) -> Seconds {
    Seconds { bits: s.to_bits() }
}

fn socket(port: u16) -> SocketAddr {
    SocketAddr { v6: false, ip: 0x7f00_0001, port, flowinfo: 0, scope_id: 0 }
}

fn participant(user_id: i64) -> SyncParticipant {
    SyncParticipant {
        id: ParticipantId::DimUser(user_id),
        display_name: format!("user{user_id}"),
        kind: ParticipantKind::DimUser { user_id, picture: None },
        is_host: false,
        is_ready: false,
        is_buffering: false,
        latency_ms: 0,
        file: None,
    }
}

fn syncplay_participant(conn_id: u64, name: &str) -> SyncParticipant {
    SyncParticipant {
        id: ParticipantId::Syncplay(conn_id),
        display_name: name.to_string(),
        kind: ParticipantKind::SyncplayClient { conn_id },
        is_host: false,
        is_ready: false,
        is_buffering: false,
        latency_ms: 0,
        file: None,
    }
}

fn room(engine: &mut SyncEngine) -> RoomInfo {
    engine
        .create_room(
            Some(1),
            Some(1),
            "Test".to_string(),
            ParticipantId::DimUser(1),
            "user1".to_string(),
            participant(1).kind,
            None,
            Some("secret".to_string()),
            at(0),
        )
        .unwrap()
}

/// Where playback stands, in seconds.
fn position(info: &RoomInfo) -> f64 {
    f64::from_bits(info.playback_position.base.bits)
        + info.playback_position.playing_nanos.unwrap_or(0) as f64 / 1e9
}

#[test]
fn changing_episode_keeps_the_room_and_notifies_every_viewer() {
    let mut engine = SyncEngine::new();
    let r = room(&mut engine);
    engine.join_room(participant(2), &r.code, Some("secret"), at(0)).unwrap();
    let host = socket(1000);
    let guest = socket(1001);
    engine.register_user_addr(1, host);
    engine.register_user_addr(2, guest);
    engine
        .add_chat(ParticipantId::DimUser(2), &r.code, "user2", "Keep this chat".to_string(), at(0))
        .unwrap();
    engine
        .set_playback(ParticipantId::DimUser(1), &r.code, "play", secs(1800.0), at(0))
        .unwrap();

    let (updated, notifications) = engine
        .change_media(ParticipantId::DimUser(1), &r.code, 1, 2, 22, "Episode 2".to_string(), at(5))
        .unwrap();
    assert_eq!(updated.code, r.code);
    assert_eq!(updated.media_file_id, Some(2));
    assert_eq!(updated.media_id, Some(22));
    assert_eq!(updated.host_user_id, 1);
    assert_eq!(updated.participants.len(), 2);
    assert_eq!(updated.playback_state, "paused");
    assert_eq!(position(&updated), 0.0);
    let kept = engine.rooms.iter().find(|x| x.code == r.code).unwrap();
    assert_eq!(kept.password.as_deref(), Some("secret"));
    assert_eq!(kept.chat_messages.len(), 1);
    let mut targets = Vec::new();
    for notification in notifications {
        if let SyncNotification::WebSocket(broadcast) = notification {
            targets.extend(broadcast.targets);
            match broadcast.message.event_type {
                PushEventType::EventWatchTogetherRoomUpdate { media_file_id, .. } => {
                    assert_eq!(media_file_id, 2)
                }
                other => panic!("unexpected event {other:?}"),
            }
        }
    }
    assert!(targets.contains(&host));
    assert!(targets.contains(&guest));
}

#[test]
fn only_host_can_advance_and_stale_episode_requests_do_not_reset_playback() {
    let mut engine = SyncEngine::new();
    let r = room(&mut engine);
    engine.join_room(participant(2), &r.code, Some("secret"), at(0)).unwrap();
    engine
        .set_control_mode(ParticipantId::DimUser(1), &r.code, ControlMode::Egalitarian, at(0))
        .unwrap();
    for user in [2, 3] {
        assert!(engine
            .change_media(ParticipantId::DimUser(user), &r.code, 1, 2, 2, "Next".to_string(), at(0))
            .is_err());
    }
    engine
        .change_media(ParticipantId::DimUser(1), &r.code, 1, 2, 2, "Next".to_string(), at(0))
        .unwrap();
    engine
        .set_playback(ParticipantId::DimUser(1), &r.code, "pause", secs(25.0), at(0))
        .unwrap();
    assert!(matches!(
        engine.report_host_state(
            ParticipantId::DimUser(1),
            &r.code,
            secs(1800.0),
            true,
            Some(1),
            at(0)
        ),
        Err("Room media has changed")
    ));
    assert!(matches!(
        engine.change_media(ParticipantId::DimUser(1), &r.code, 1, 2, 2, "Next".to_string(), at(0)),
        Err("Room media has changed")
    ));
    let info = engine.get_room_info(&r.code, at(0)).unwrap();
    assert_eq!(info.media_file_id, Some(2));
    assert_eq!(position(&info), 25.0);
    assert_eq!(info.playback_state, "paused");
}

#[test]
fn disconnect_removes_every_membership_and_migrates_remaining_hosts() {
    let mut engine = SyncEngine::new();
    let a = room(&mut engine);
    let b = room(&mut engine);
    engine.join_room(participant(2), &a.code, Some("secret"), at(0)).unwrap();
    let addr = socket(1000);
    engine.register_user_addr(1, addr);
    engine.handle_ws_disconnect(1, addr, at(0));
    assert!(engine.get_room_info(&b.code, at(0)).is_none());
    let remaining = engine.get_room_info(&a.code, at(0)).unwrap();
    assert_eq!(remaining.participants.len(), 1);
    assert_eq!(remaining.host_user_id, 2);
}

#[test]
fn reconnect_before_cleanup_preserves_host_and_after_cleanup_can_rejoin() {
    let mut engine = SyncEngine::new();
    let r = room(&mut engine);
    engine.join_room(participant(2), &r.code, Some("secret"), at(0)).unwrap();
    let old = socket(1000);
    let new = socket(1001);
    engine.register_user_addr(1, old);
    engine.register_user_addr(1, new);
    engine.handle_ws_disconnect(1, old, at(0));
    assert_eq!(engine.get_room_info(&r.code, at(0)).unwrap().host_user_id, 1);
    engine.handle_ws_disconnect(1, new, at(0));
    engine.register_user_addr(1, old);
    let (info, _) = engine.join_room(participant(1), &r.code, Some("secret"), at(0)).unwrap();
    assert_eq!(info.participants.len(), 2);
    assert_eq!(info.host_user_id, 2);
    assert!(engine
        .add_chat(ParticipantId::DimUser(1), &r.code, "user1", "back".to_string(), at(0))
        .is_ok());
}

#[test]
fn host_reports_pause_stalls_and_resume_from_actual_position_without_echo() {
    let mut engine = SyncEngine::new();
    let r = room(&mut engine);
    engine.join_room(participant(2), &r.code, Some("secret"), at(0)).unwrap();
    let host = socket(1000);
    let guest = socket(1001);
    engine.register_user_addr(1, host);
    engine.register_user_addr(2, guest);
    engine
        .set_playback(ParticipantId::DimUser(1), &r.code, "play", secs(100.0), at(0))
        .unwrap();
    let notifications = engine
        .report_host_state(ParticipantId::DimUser(1), &r.code, secs(101.0), true, Some(1), at(0))
        .unwrap();
    assert_eq!(notifications.len(), 1);
    if let SyncNotification::WebSocket(msg) = &notifications[0] {
        assert_eq!(msg.targets, vec![guest]);
        match &msg.message.event_type {
            PushEventType::EventWatchTogetherSync { action, .. } => assert_eq!(action, "pause"),
            other => panic!("unexpected event {other:?}"),
        }
    } else {
        panic!("expected WebSocket notification");
    }
    // Twenty seconds later the paused room has not moved.
    let later = at(20_000_000_000);
    let stalled = engine.get_room_info(&r.code, later).unwrap();
    assert_eq!(position(&stalled), 101.0);
    assert_eq!(stalled.playback_state, "paused");
    engine
        .report_host_state(ParticipantId::DimUser(1), &r.code, secs(101.0), false, Some(1), later)
        .unwrap();
    assert_eq!(engine.get_room_info(&r.code, later).unwrap().playback_state, "playing");
    // Large actual-position corrections are adopted without triggering seeks.
    assert!(engine
        .report_host_state(ParticipantId::DimUser(1), &r.code, secs(50.0), false, Some(1), later)
        .unwrap()
        .is_empty());
    assert!(position(&engine.get_room_info(&r.code, later).unwrap()) < 51.0);
}

#[test]
fn host_reports_reject_guests_even_in_egalitarian_rooms_and_invalid_positions() {
    let mut engine = SyncEngine::new();
    let r = room(&mut engine);
    engine.join_room(participant(2), &r.code, Some("secret"), at(0)).unwrap();
    engine
        .set_control_mode(ParticipantId::DimUser(1), &r.code, ControlMode::Egalitarian, at(0))
        .unwrap();
    assert!(matches!(
        engine.report_host_state(
            ParticipantId::DimUser(2),
            &r.code,
            secs(5.0),
            false,
            Some(1),
            at(0)
        ),
        Err("Only the host can report playback")
    ));
    for position in [-1.0, f64::NAN, f64::INFINITY] {
        assert!(matches!(
            engine.report_host_state(
                ParticipantId::DimUser(1),
                &r.code,
                secs(position),
                false,
                Some(1),
                at(0)
            ),
            Err("Invalid position")
        ));
    }
    assert_eq!(position(&engine.get_room_info(&r.code, at(0)).unwrap()), 0.0);
    assert!(matches!(
        engine.join_room(participant(3), &r.code, Some("wrong"), at(0)),
        Err("Invalid password")
    ));
}

#[test]
fn closing_a_second_tab_keeps_the_watching_tab_in_the_room() {
    let mut engine = SyncEngine::new();
    let r = room(&mut engine);
    engine.join_room(participant(2), &r.code, Some("secret"), at(0)).unwrap();
    let watching = socket(1000);
    let browsing = socket(1001);
    engine.register_user_addr(2, watching);
    engine.register_user_addr(2, browsing);

    // Both tabs receive room traffic.
    let notifs = engine
        .add_chat(ParticipantId::DimUser(1), &r.code, "user1", "hi".to_string(), at(0))
        .unwrap();
    let SyncNotification::WebSocket(b) = &notifs[0] else {
        panic!("expected WebSocket notification")
    };
    assert!(b.targets.contains(&watching) && b.targets.contains(&browsing));

    assert!(engine.handle_ws_disconnect(2, browsing, at(0)).is_none());
    assert_eq!(engine.get_room_info(&r.code, at(0)).unwrap().participants.len(), 2);
    engine.handle_ws_disconnect(2, watching, at(0));
    assert_eq!(engine.get_room_info(&r.code, at(0)).unwrap().participants.len(), 1);
}

#[test]
fn stale_host_report_cannot_undo_a_guest_pause() {
    let mut engine = SyncEngine::new();
    let r = room(&mut engine);
    engine.join_room(participant(2), &r.code, Some("secret"), at(0)).unwrap();
    engine
        .set_control_mode(ParticipantId::DimUser(1), &r.code, ControlMode::Egalitarian, at(0))
        .unwrap();
    engine
        .set_playback(ParticipantId::DimUser(1), &r.code, "play", secs(10.0), at(0))
        .unwrap();
    engine
        .set_playback(ParticipantId::DimUser(2), &r.code, "pause", secs(12.0), at(0))
        .unwrap();
    // The host's report was sent before it saw the pause.
    assert!(engine
        .report_host_state(ParticipantId::DimUser(1), &r.code, secs(11.5), false, Some(1), at(0))
        .unwrap()
        .is_empty());
    let info = engine.get_room_info(&r.code, at(0)).unwrap();
    assert_eq!(info.playback_state, "paused");
    assert_eq!(position(&info), 12.0);

    // Once the hold-off expires the host's reports count again.
    engine.rooms[0].host_report_holdoff_until = None;
    engine
        .report_host_state(ParticipantId::DimUser(1), &r.code, secs(12.0), false, Some(1), at(0))
        .unwrap();
    assert_eq!(engine.get_room_info(&r.code, at(0)).unwrap().playback_state, "playing");
}

#[test]
fn host_migration_prefers_dim_users_over_syncplay_clients() {
    let mut engine = SyncEngine::new();
    let r = room(&mut engine);
    engine
        .join_room(syncplay_participant(7, "vlc"), &r.code, Some("secret"), at(0))
        .unwrap();
    engine.join_room(participant(2), &r.code, Some("secret"), at(0)).unwrap();
    engine.leave_room(ParticipantId::DimUser(1), &r.code, at(0)).unwrap();
    assert_eq!(engine.get_room_info(&r.code, at(0)).unwrap().host_user_id, 2);
}

#[test]
fn syncplay_server_password_does_not_become_a_room_password() {
    let mut engine = SyncEngine::new();
    let digest = format!("{:x}", md5::compute(b"serverpw"));
    let (code, _, _) = engine
        .join_room_by_name(syncplay_participant(1, "vlc"), "movie night", Some(&digest), at(0))
        .unwrap();
    assert!(engine.join_room(participant(2), &code, None, at(0)).is_ok());
}

#[test]
fn a_room_password_is_accepted_as_its_digest() {
    let mut engine = SyncEngine::new();
    let r = room(&mut engine);
    // The digest of "secret", as desktop clients send it.
    assert!(engine
        .join_room(
            syncplay_participant(3, "mpv"),
            &r.code,
            Some("5ebe2294ecd0e0f08eab7690d2a6ee69"),
            at(0)
        )
        .is_ok());
    assert!(engine
        .join_room(
            syncplay_participant(4, "mpv"),
            &r.code,
            Some("5ebe2294ecd0e0f08eab7690d2a6ee68"),
            at(0)
        )
        .is_err());
}

#[test]
fn room_codes_are_six_unambiguous_characters() {
    let mut engine = SyncEngine::new();
    let mut codes = Vec::new();
    for _ in 0..20 {
        let r = room(&mut engine);
        assert_eq!(r.code.len(), 6);
        assert!(r.code.chars().all(|c| "ABCDEFGHJKLMNPQRSTUVWXYZ23456789".contains(c)));
        assert!(!codes.contains(&r.code));
        codes.push(r.code);
    }
    assert_eq!(engine.list_rooms(at(0)).len(), 20);
    let free = engine.fresh_room_code().unwrap();
    assert!(!codes.contains(&free));
}

#[test]
fn unknown_rooms_and_strangers_are_refused() {
    let mut engine = SyncEngine::new();
    let r = room(&mut engine);
    let stranger = ParticipantId::DimUser(9);
    assert!(matches!(
        engine.join_room(participant(2), "NOROOM", None, at(0)),
        Err("Room not found")
    ));
    assert!(matches!(engine.leave_room(stranger, "NOROOM", at(0)), Err("Room not found")));
    assert!(matches!(engine.set_ready(stranger, &r.code, true), Err("User not in room")));
    assert!(matches!(
        engine.add_chat(stranger, &r.code, "x", "hi".to_string(), at(0)),
        Err("User not in room")
    ));
    assert!(matches!(
        engine.set_playback(stranger, &r.code, "play", secs(1.0), at(0)),
        Err("Not allowed to control playback")
    ));
    assert!(matches!(
        engine.set_playback(ParticipantId::DimUser(1), &r.code, "dance", secs(1.0), at(0)),
        Err("Invalid action")
    ));
    assert!(matches!(
        engine.transfer_host(&r.code, stranger, ParticipantId::DimUser(1), at(0)),
        Err("Only the host can transfer host")
    ));
    assert!(matches!(
        engine.transfer_host(&r.code, ParticipantId::DimUser(1), stranger, at(0)),
        Err("Target user not in room")
    ));
    assert!(matches!(
        engine.set_control_mode(stranger, &r.code, ControlMode::Egalitarian, at(0)),
        Err("Only the host can change control mode")
    ));
}

#[test]
fn a_transfer_leaves_one_host() {
    let mut engine = SyncEngine::new();
    let r = room(&mut engine);
    engine.join_room(participant(2), &r.code, Some("secret"), at(0)).unwrap();
    engine
        .transfer_host(&r.code, ParticipantId::DimUser(1), ParticipantId::DimUser(2), at(0))
        .unwrap();
    let info = engine.get_room_info(&r.code, at(0)).unwrap();
    assert_eq!(info.host_user_id, 2);
    assert_eq!(info.participants.iter().filter(|p| p.is_host).count(), 1);
}

#[test]
fn chat_keeps_the_last_two_hundred_messages() {
    let mut engine = SyncEngine::new();
    let r = room(&mut engine);
    for n in 0..205 {
        engine
            .add_chat(ParticipantId::DimUser(1), &r.code, "user1", format!("m{n}"), at(0))
            .unwrap();
    }
    let messages = &engine.rooms[0].chat_messages;
    assert_eq!(messages.len(), 200);
    assert_eq!(messages[0].text, "m5");
    assert_eq!(messages[199].text, "m204");
}

#[test]
fn playing_rooms_move_on() {
    let mut engine = SyncEngine::new();
    let r = room(&mut engine);
    engine
        .set_playback(ParticipantId::DimUser(1), &r.code, "play", secs(10.0), at(0))
        .unwrap();
    let info = engine.get_room_info(&r.code, at(2_500_000_000)).unwrap();
    assert_eq!(position(&info), 12.5);
    assert_eq!(engine.rooms[0].playback_state, PlaybackState::Playing);
}

#[test]
fn syncplay_clients_have_negative_user_ids() {
    let id = |conn_id: u64| {
        let mut p = participant(1);
        p.kind = ParticipantKind::SyncplayClient { conn_id };
        p.user_id()
    };
    assert_eq!(id(0), -1);
    assert_eq!(id(1), -2);
    assert_eq!(id(i64::MAX as u64), i64::MIN);
    assert_eq!(participant(5).user_id(), 5);
}
