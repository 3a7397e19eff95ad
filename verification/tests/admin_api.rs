use sculptor::admin::{prepare_raw, prepare_sub_raw, CMotd, Config, Limitations, RawTarget};
use sculptor::auth::Token;
use sculptor::bans::{apply_advanced_users, apply_bans, apply_unbans, diff_bans, BannedPlayer};
use sculptor::errors::{error_and_log, internal_and_log, ApiError};
use sculptor::manager::UManager;
use sculptor::users::{default_authproviders, AdvancedUsers};

const UUID_A: u128 = 0x11111111_1111_1111_1111_111111111111;
const UUID_B: u128 = 0x22222222_2222_2222_2222_222222222222;

fn config(token: Option<&str>) -> Config {
    Config {
        listen: "0.0.0.0:6665".to_string(),
        token: token.map(|t| t.to_string()),
        assets_updater_enabled: false,
        metrics_enabled: false,
        motd: CMotd {
            display_server_info: false,
            custom_text: "[]".to_string(),
            text_uptime: "Uptime: ".to_string(),
            text_authclients: "Clients: ".to_string(),
            draw_indent: false,
        },
        auth_providers: default_authproviders(),
        limitations: Limitations { max_avatar_size: 100, max_avatars: 1 },
        mc_folder: String::new(),
        advanced_users: Vec::new(),
    }
}

fn admin() -> Token {
    Token(Some("admin".to_string()))
}

#[test]
fn raw_broadcast_decodes_the_body_for_every_session() {
    let cfg = config(Some("admin"));
    let (payload, target) = prepare_raw(&cfg, &admin(), None, true, b"01aa").unwrap();
    assert_eq!(payload, vec![0x01, 0xaa]);
    assert!(matches!(target, RawTarget::All));
}

#[test]
fn raw_for_one_session_names_the_player() {
    let cfg = config(Some("admin"));
    let (payload, target) = prepare_raw(&cfg, &admin(), Some(UUID_A), false, b"00").unwrap();
    assert_eq!(payload, vec![0x00]);
    assert!(matches!(target, RawTarget::One(u) if u == UUID_A));
}

#[test]
fn raw_requires_exactly_one_of_uuid_and_all() {
    let cfg = config(Some("admin"));
    let both = prepare_raw(&cfg, &admin(), Some(UUID_A), true, b"00").unwrap_err();
    assert_eq!(both, ApiError::BadRequest);
    let neither = prepare_raw(&cfg, &admin(), None, false, b"00").unwrap_err();
    assert_eq!(neither, ApiError::BadRequest);
}

#[test]
fn bad_hex_body_is_not_acceptable() {
    let cfg = config(Some("admin"));
    let err = prepare_raw(&cfg, &admin(), None, true, b"zz").unwrap_err();
    assert_eq!(err, ApiError::NotAcceptable);
    let odd = prepare_raw(&cfg, &admin(), None, true, b"abc").unwrap_err();
    assert_eq!(odd, ApiError::NotAcceptable);
}

#[test]
fn wrong_or_missing_admin_token_is_refused() {
    let cfg = config(Some("admin"));
    let wrong = prepare_raw(&cfg, &Token(Some("nope".to_string())), None, true, b"00");
    assert_eq!(wrong.unwrap_err(), ApiError::Unauthorized);
    let missing = prepare_raw(&cfg, &Token(None), None, true, b"00");
    assert_eq!(missing.unwrap_err(), ApiError::Unauthorized);
}

#[test]
fn unconfigured_admin_token_locks_the_surface() {
    let cfg = config(None);
    let err = cfg.verify_token(&admin()).unwrap_err();
    assert_eq!(err, ApiError::Locked);
    assert_eq!(err.status_code(), 423);
    assert_eq!(err.body_str(), "token doesnt defined");
}

#[test]
fn sub_raw_needs_a_player() {
    let cfg = config(Some("admin"));
    let err = prepare_sub_raw(&cfg, &admin(), None, b"01aa").unwrap_err();
    assert_eq!(err, ApiError::NotFound);
    let (payload, uuid) = prepare_sub_raw(&cfg, &admin(), Some(UUID_B), b"01aa").unwrap();
    assert_eq!(payload, vec![0x01, 0xaa]);
    assert_eq!(uuid, UUID_B);
}

#[test]
fn status_codes_and_bodies_match_the_boundary() {
    assert_eq!(ApiError::BadRequest.status_code(), 400);
    assert_eq!(ApiError::Unauthorized.status_code(), 401);
    assert_eq!(ApiError::NotFound.status_code(), 404);
    assert_eq!(ApiError::NotAcceptable.status_code(), 406);
    assert_eq!(ApiError::Internal.status_code(), 500);
    assert_eq!(internal_and_log("boom".to_string()), ApiError::Internal);
    assert_eq!(
        error_and_log("bad".to_string(), ApiError::NotAcceptable),
        ApiError::NotAcceptable
    );
}

fn player(uuid: u128, name: &str) -> BannedPlayer {
    BannedPlayer { uuid, name: name.to_string() }
}

#[test]
fn ban_list_diff_splits_added_and_removed() {
    let old_list = vec![player(UUID_A, "Alice")];
    let new_list = vec![player(UUID_B, "Bob")];
    let (to_ban, to_unban) = diff_bans(&old_list, &new_list);
    assert_eq!(to_ban.len(), 1);
    assert_eq!(to_ban[0].uuid, UUID_B);
    assert_eq!(to_unban.len(), 1);
    assert_eq!(to_unban[0].uuid, UUID_A);
}

#[test]
fn unchanged_ban_list_diffs_to_nothing() {
    let list = vec![player(UUID_A, "Alice"), player(UUID_B, "Bob")];
    let same = vec![player(UUID_A, "Alice"), player(UUID_B, "Bob")];
    let (to_ban, to_unban) = diff_bans(&list, &same);
    assert!(to_ban.is_empty());
    assert!(to_unban.is_empty());
}

#[test]
fn ban_list_changes_land_in_the_manager() {
    let mut um = UManager::new();
    apply_bans(&mut um, &vec![player(UUID_A, "Alice")]);
    assert!(um.is_banned(&UUID_A));
    apply_unbans(&mut um, &vec![player(UUID_A, "Alice")]);
    assert!(!um.is_banned(&UUID_A));
}

#[test]
fn advanced_users_land_in_the_manager() {
    let mut um = UManager::new();
    let entries = vec![
        (UUID_A, AdvancedUsers {
            username: "Alice".to_string(),
            banned: false,
            special: [0; 6],
            pride: [0; 25],
        }),
        (UUID_B, AdvancedUsers {
            username: "Bob".to_string(),
            banned: true,
            special: [1, 0, 0, 0, 0, 0],
            pride: [0; 25],
        }),
    ];
    apply_advanced_users(&mut um, &entries);
    assert!(!um.is_banned(&UUID_A));
    assert!(um.is_banned(&UUID_B));
    assert_eq!(um.get_by_uuid(&UUID_A).unwrap().nickname, "Alice");
    assert_eq!(um.get_by_uuid(&UUID_B).unwrap().nickname, "Bob");
}

#[test]
fn bad_hex_outranks_bad_query_keys() {
    let cfg = config(Some("admin"));
    let err = prepare_raw(&cfg, &admin(), Some(UUID_A), true, b"zz").unwrap_err();
    assert_eq!(err, ApiError::NotAcceptable);
    let err = prepare_raw(&cfg, &admin(), None, false, b"zz").unwrap_err();
    assert_eq!(err, ApiError::NotAcceptable);
}

#[test]
fn applying_a_ban_list_leaves_others_alone() {
    let mut um = UManager::new();
    let mut alice = sculptor::users::Userinfo::default();
    alice.uuid = UUID_A;
    alice.nickname = "Alice".to_string();
    um.insert_user(UUID_A, alice);
    apply_bans(&mut um, &vec![player(UUID_B, "Bob")]);
    assert!(!um.is_banned(&UUID_A));
    assert_eq!(um.get_by_uuid(&UUID_A).unwrap().nickname, "Alice");
    apply_unbans(&mut um, &vec![player(UUID_B, "Bob")]);
    assert!(!um.is_banned(&UUID_B));
    assert_eq!(um.get_by_uuid(&UUID_A).unwrap().nickname, "Alice");
}

#[test]
fn advanced_users_merge_and_leave_others_alone() {
    let mut um = UManager::new();
    let mut alice = sculptor::users::Userinfo::default();
    alice.uuid = UUID_A;
    alice.nickname = "Alice".to_string();
    alice.rank = "admin".to_string();
    um.insert_user(UUID_A, alice);
    let mut bob = sculptor::users::Userinfo::default();
    bob.uuid = UUID_B;
    bob.nickname = "Bob".to_string();
    um.insert_user(UUID_B, bob);
    // An entry with an empty username bans Alice without erasing her fields;
    // Bob is not named and keeps his profile.
    let entries = vec![
        (UUID_A, AdvancedUsers {
            username: String::new(),
            banned: true,
            special: [0; 6],
            pride: [0; 25],
        }),
    ];
    apply_advanced_users(&mut um, &entries);
    let alice = um.get_by_uuid(&UUID_A).unwrap();
    assert_eq!(alice.nickname, "Alice");
    assert_eq!(alice.rank, "admin");
    assert!(alice.banned);
    let bob = um.get_by_uuid(&UUID_B).unwrap();
    assert_eq!(bob.nickname, "Bob");
    assert!(!bob.banned);
    // A later reload clearing the flag unbans without other changes.
    let entries = vec![
        (UUID_A, AdvancedUsers {
            username: String::new(),
            banned: false,
            special: [0; 6],
            pride: [0; 25],
        }),
    ];
    apply_advanced_users(&mut um, &entries);
    let alice = um.get_by_uuid(&UUID_A).unwrap();
    assert_eq!(alice.nickname, "Alice");
    assert!(!alice.banned);
}
