use sculptor::codec::{encode_c2s, encode_s2c, C2SMessage, S2CMessage};
use sculptor::manager::UManager;
use sculptor::session::{
    authenticate_frame, auth_frame, ban_toast_frame, handle_client_frame, handle_session_message,
    AuthModeError, SessionHalt, SessionMessage, SessionState, StatePingStore, WsAction,
    CLOSE_BANNED_CODE, CLOSE_REAUTH_CODE, MAX_STATE_PINGS, STATE_PING_FUNC_ID,
};
use sculptor::users::Userinfo;

const UUID_A: u128 = 0x11111111_1111_1111_1111_111111111111;
const UUID_B: u128 = 0x22222222_2222_2222_2222_222222222222;

fn profile(uuid: u128, nickname: &str, token: Option<&str>) -> Userinfo {
    let mut info = Userinfo::default();
    info.uuid = uuid;
    info.nickname = nickname.to_string();
    info.token = token.map(|t| t.to_string());
    info
}

fn session() -> SessionState {
    SessionState::new(UUID_A, "Alice".to_string())
}

#[test]
fn normal_ping_is_broadcast_as_the_encoded_server_ping() {
    let mut sess = session();
    let mut store = StatePingStore::new();
    let frame = vec![0x01, 0x00, 0x00, 0x00, 0x01, 0x00, 0xde, 0xad];
    let actions = handle_client_frame(&mut sess, &mut store, &frame).unwrap();
    let expected = encode_s2c(&S2CMessage::Ping(UUID_A, 1, false, vec![0xde, 0xad]));
    assert_eq!(actions.len(), 1);
    match &actions[0] {
        WsAction::Broadcast(bytes) => assert_eq!(bytes, &expected),
        other => panic!("expected a broadcast, got {other:?}"),
    }
}

#[test]
fn echo_ping_is_sent_back_and_broadcast() {
    let mut sess = session();
    let mut store = StatePingStore::new();
    let frame = encode_c2s(&C2SMessage::Ping(1, true, vec![0xde, 0xad]));
    let actions = handle_client_frame(&mut sess, &mut store, &frame).unwrap();
    let expected = encode_s2c(&S2CMessage::Ping(UUID_A, 1, true, vec![0xde, 0xad]));
    assert_eq!(actions.len(), 2);
    match &actions[0] {
        WsAction::Send(bytes) => assert_eq!(bytes, &expected),
        other => panic!("expected an echo send, got {other:?}"),
    }
    match &actions[1] {
        WsAction::Broadcast(bytes) => assert_eq!(bytes, &expected),
        other => panic!("expected a broadcast, got {other:?}"),
    }
}

#[test]
fn state_ping_toggle_then_ping_is_stored_and_replayable() {
    let mut sess = session();
    let mut store = StatePingStore::new();
    // Arm the capture: funcId = 0x0F0F0F0D, payload byte 1 set to 1.
    let arm = encode_c2s(&C2SMessage::Ping(STATE_PING_FUNC_ID, false, vec![0, 1]));
    let actions = handle_client_frame(&mut sess, &mut store, &arm).unwrap();
    assert!(actions.is_empty());
    // The next normal ping is captured for replay.
    let ping = encode_c2s(&C2SMessage::Ping(2, false, vec![0xaa]));
    handle_client_frame(&mut sess, &mut store, &ping).unwrap();
    let expected = encode_s2c(&S2CMessage::Ping(UUID_A, 2, false, vec![0xaa]));
    let stored = store.get_pings(UUID_A).unwrap();
    assert_eq!(stored, &vec![expected]);
    // The capture disarms after one ping.
    let ping2 = encode_c2s(&C2SMessage::Ping(3, false, vec![0xbb]));
    handle_client_frame(&mut sess, &mut store, &ping2).unwrap();
    assert_eq!(store.get_pings(UUID_A).unwrap().len(), 1);
}

#[test]
fn state_ping_reset_clears_the_store() {
    let mut sess = session();
    let mut store = StatePingStore::new();
    let arm = encode_c2s(&C2SMessage::Ping(STATE_PING_FUNC_ID, false, vec![0, 1]));
    handle_client_frame(&mut sess, &mut store, &arm).unwrap();
    let ping = encode_c2s(&C2SMessage::Ping(2, false, vec![0xaa]));
    handle_client_frame(&mut sess, &mut store, &ping).unwrap();
    let reset = encode_c2s(&C2SMessage::Ping(STATE_PING_FUNC_ID, false, vec![0, 0]));
    handle_client_frame(&mut sess, &mut store, &reset).unwrap();
    assert_eq!(store.get_pings(UUID_A).unwrap().len(), 0);
}

#[test]
fn state_ping_store_is_capped() {
    let mut store = StatePingStore::new();
    for i in 0..(MAX_STATE_PINGS + 10) {
        store.push_ping(UUID_A, vec![i as u8]);
    }
    assert_eq!(store.get_pings(UUID_A).unwrap().len(), MAX_STATE_PINGS);
}

#[test]
fn sub_of_own_uuid_is_silently_ignored() {
    let mut sess = session();
    let mut store = StatePingStore::new();
    let frame = encode_c2s(&C2SMessage::Sub(UUID_A));
    let actions = handle_client_frame(&mut sess, &mut store, &frame).unwrap();
    assert!(actions.is_empty());
    let frame = encode_c2s(&C2SMessage::Unsub(UUID_A));
    let actions = handle_client_frame(&mut sess, &mut store, &frame).unwrap();
    assert!(actions.is_empty());
}

#[test]
fn sub_then_unsub_starts_and_cancels_the_forwarder() {
    let mut sess = session();
    let mut store = StatePingStore::new();
    let frame = encode_c2s(&C2SMessage::Sub(UUID_B));
    let actions = handle_client_frame(&mut sess, &mut store, &frame).unwrap();
    assert_eq!(actions.len(), 1);
    assert!(matches!(actions[0], WsAction::StartSubscription(u) if u == UUID_B));
    let frame = encode_c2s(&C2SMessage::Unsub(UUID_B));
    let actions = handle_client_frame(&mut sess, &mut store, &frame).unwrap();
    assert_eq!(actions.len(), 1);
    assert!(matches!(actions[0], WsAction::CancelSubscription(u) if u == UUID_B));
    // A second unsubscribe finds nothing to cancel.
    let frame = encode_c2s(&C2SMessage::Unsub(UUID_B));
    let actions = handle_client_frame(&mut sess, &mut store, &frame).unwrap();
    assert!(actions.is_empty());
}

#[test]
fn token_replay_halts_the_session() {
    let mut sess = session();
    let mut store = StatePingStore::new();
    let frame = encode_c2s(&C2SMessage::Token(b"tok1".to_vec()));
    let halt = handle_client_frame(&mut sess, &mut store, &frame).unwrap_err();
    assert!(matches!(halt, SessionHalt::TokenReplay));
}

#[test]
fn garbage_frame_halts_the_session() {
    let mut sess = session();
    let mut store = StatePingStore::new();
    let halt = handle_client_frame(&mut sess, &mut store, &[9, 9]).unwrap_err();
    assert!(matches!(halt, SessionHalt::BadFrame(_)));
}

#[test]
fn mailbox_ping_goes_to_the_client_and_ban_ends_the_loop() {
    let (actions, keep_running) = handle_session_message(SessionMessage::Ping(vec![1, 2, 3]));
    assert!(keep_running);
    assert_eq!(actions.len(), 1);
    assert!(matches!(&actions[0], WsAction::Send(b) if b == &vec![1, 2, 3]));
    let (actions, keep_running) = handle_session_message(SessionMessage::Banned);
    assert!(!keep_running);
    assert!(matches!(actions[0], WsAction::BanRitual));
}

#[test]
fn authenticate_accepts_a_known_token() {
    let mut um = UManager::new();
    um.insert(UUID_A, "tok1".to_string(), profile(UUID_A, "Alice", Some("tok1"))).unwrap();
    let frame = encode_c2s(&C2SMessage::Token(b"tok1".to_vec()));
    let user = authenticate_frame(&um, &frame).unwrap();
    assert_eq!(user.uuid, UUID_A);
    assert_eq!(user.nickname, "Alice");
}

#[test]
fn unknown_token_asks_for_reauth() {
    let um = UManager::new();
    let frame = encode_c2s(&C2SMessage::Token(b"BADTOKEN".to_vec()));
    let err = authenticate_frame(&um, &frame).unwrap_err();
    assert!(matches!(err, AuthModeError::AuthenticationFailure));
    assert_eq!(CLOSE_REAUTH_CODE, 4000);
}

#[test]
fn empty_token_is_rejected_as_unauthorized_action() {
    let mut um = UManager::new();
    um.insert(UUID_A, "tok1".to_string(), profile(UUID_A, "Alice", Some("tok1"))).unwrap();
    let frame = encode_c2s(&C2SMessage::Token(Vec::new()));
    let err = authenticate_frame(&um, &frame).unwrap_err();
    assert!(matches!(err, AuthModeError::UnauthorizedAction));
}

#[test]
fn first_frame_that_is_not_a_token_is_unauthorized() {
    let um = UManager::new();
    let frame = encode_c2s(&C2SMessage::Ping(1, false, Vec::new()));
    let err = authenticate_frame(&um, &frame).unwrap_err();
    assert!(matches!(err, AuthModeError::UnauthorizedAction));
}

#[test]
fn banned_player_gets_the_ban_ritual_at_login() {
    let mut um = UManager::new();
    let mut info = profile(UUID_A, "Alice", Some("goodtoken"));
    info.banned = true;
    um.insert(UUID_A, "goodtoken".to_string(), info).unwrap();
    let frame = encode_c2s(&C2SMessage::Token(b"goodtoken".to_vec()));
    let err = authenticate_frame(&um, &frame).unwrap_err();
    match err {
        AuthModeError::Banned(nickname) => assert_eq!(nickname, "Alice"),
        other => panic!("expected the ban outcome, got {other:?}"),
    }
    let toast = ban_toast_frame();
    let mut expected = vec![0x03, 0x02];
    expected.extend_from_slice(b"You're banned!");
    assert_eq!(toast, expected);
    assert_eq!(CLOSE_BANNED_CODE, 4001);
}

#[test]
fn auth_frame_is_the_single_acceptance_byte() {
    assert_eq!(auth_frame(), vec![0x00]);
}

#[test]
fn state_ping_control_with_short_payload_is_ignored() {
    let mut sess = session();
    let mut store = StatePingStore::new();
    let short = encode_c2s(&C2SMessage::Ping(STATE_PING_FUNC_ID, false, vec![7]));
    let actions = handle_client_frame(&mut sess, &mut store, &short).unwrap();
    assert!(actions.is_empty());
    assert!(store.get_pings(UUID_A).is_none());
}

#[test]
fn state_ping_control_with_other_byte_is_ignored() {
    let mut sess = session();
    let mut store = StatePingStore::new();
    let other = encode_c2s(&C2SMessage::Ping(STATE_PING_FUNC_ID, false, vec![0, 9]));
    let actions = handle_client_frame(&mut sess, &mut store, &other).unwrap();
    assert!(actions.is_empty());
    // No capture was armed: the next ping is not stored.
    let ping = encode_c2s(&C2SMessage::Ping(2, false, vec![0xaa]));
    handle_client_frame(&mut sess, &mut store, &ping).unwrap();
    assert!(store.get_pings(UUID_A).is_none());
}
