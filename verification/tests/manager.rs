use sculptor::manager::UManager;
use sculptor::users::Userinfo;

const UUID_A: u128 = 0x11111111_1111_1111_1111_111111111111;
const UUID_B: u128 = 0x22222222_2222_2222_2222_222222222222;

fn profile(uuid: u128, nickname: &str, token: Option<&str>) -> Userinfo {
    let mut info = Userinfo::default();
    info.uuid = uuid;
    info.nickname = nickname.to_string();
    info.token = token.map(|t| t.to_string());
    info
}

#[test]
fn pending_is_single_use() {
    let mut um = UManager::new();
    um.pending_insert("sid1".to_string(), "Alice".to_string());
    let taken = um.pending_remove("sid1").unwrap();
    assert_eq!(taken.0, "sid1");
    assert_eq!(taken.1, "Alice");
    assert!(um.pending_remove("sid1").is_none());
}

#[test]
fn insert_opens_one_session() {
    let mut um = UManager::new();
    let r = um.insert(UUID_A, "tok1".to_string(), profile(UUID_A, "Alice", Some("tok1")));
    assert!(r.is_ok());
    assert!(um.is_authenticated("tok1"));
    assert_eq!(um.count_authenticated(), 1);
    let user = um.get("tok1").unwrap();
    assert_eq!(user.nickname, "Alice");
    assert_eq!(user.uuid, UUID_A);
}

#[test]
fn second_session_is_a_conflict() {
    let mut um = UManager::new();
    um.insert(UUID_A, "tok1".to_string(), profile(UUID_A, "Alice", Some("tok1"))).unwrap();
    let r = um.insert(UUID_A, "tok2".to_string(), profile(UUID_A, "Alice", Some("tok2")));
    assert!(r.is_err());
    assert!(um.is_authenticated("tok1"));
    assert!(!um.is_authenticated("tok2"));
}

#[test]
fn remove_then_insert_succeeds() {
    let mut um = UManager::new();
    um.insert(UUID_A, "tok1".to_string(), profile(UUID_A, "Alice", Some("tok1"))).unwrap();
    um.remove(&UUID_A);
    assert!(!um.is_authenticated("tok1"));
    assert!(um.is_registered(&UUID_A));
    let r = um.insert(UUID_A, "tok2".to_string(), profile(UUID_A, "Alice", Some("tok2")));
    assert!(r.is_ok());
    assert!(um.is_authenticated("tok2"));
}

#[test]
fn remove_twice_is_a_no_op() {
    let mut um = UManager::new();
    um.insert(UUID_A, "tok1".to_string(), profile(UUID_A, "Alice", Some("tok1"))).unwrap();
    um.remove(&UUID_A);
    let sessions = um.get_all_authenticated();
    um.remove(&UUID_A);
    let sessions_again = um.get_all_authenticated();
    assert_eq!(sessions.len(), 0);
    assert_eq!(sessions_again.len(), 0);
    assert!(um.is_registered(&UUID_A));
}

#[test]
fn unban_twice_is_a_no_op() {
    let mut um = UManager::new();
    let mut banned = profile(UUID_A, "Alice", None);
    banned.banned = true;
    um.ban(&banned);
    assert!(um.is_banned(&UUID_A));
    um.unban(&UUID_A);
    assert!(!um.is_banned(&UUID_A));
    let snapshot = um.get_all_registered();
    um.unban(&UUID_A);
    let snapshot_again = um.get_all_registered();
    assert_eq!(snapshot.len(), snapshot_again.len());
    let a = &snapshot[0].1;
    let b = &snapshot_again[0].1;
    assert_eq!(a.nickname, b.nickname);
    assert_eq!(a.banned, b.banned);
    assert_eq!(a.token, b.token);
    assert_eq!(a.last_used, b.last_used);
}

#[test]
fn repeated_insert_user_leaves_registered_equal() {
    let mut um = UManager::new();
    let info = profile(UUID_A, "Alice", None);
    um.insert_user(UUID_A, info.clone());
    let first = um.get_all_registered();
    um.insert_user(UUID_A, info);
    let second = um.get_all_registered();
    assert_eq!(first.len(), second.len());
    let a = &first[0].1;
    let b = &second[0].1;
    assert_eq!(a.nickname, b.nickname);
    assert_eq!(a.rank, b.rank);
    assert_eq!(a.last_used, b.last_used);
    assert_eq!(a.token, b.token);
    assert_eq!(a.version, b.version);
    assert_eq!(a.banned, b.banned);
    assert_eq!(a.auth_provider.name, b.auth_provider.name);
}

#[test]
fn merge_keeps_fields_the_newcomer_does_not_own() {
    let mut um = UManager::new();
    let mut original = profile(UUID_A, "Alice", None);
    original.rank = "admin".to_string();
    um.insert_user(UUID_A, original);
    // A later source with an empty nickname and default rank must not erase
    // either field.
    let blank = profile(UUID_A, "", None);
    um.insert_user(UUID_A, blank);
    let user = um.get_by_uuid(&UUID_A).unwrap();
    assert_eq!(user.nickname, "Alice");
    assert_eq!(user.rank, "admin");
}

#[test]
fn ban_registers_unknown_players() {
    let mut um = UManager::new();
    let mut banned = profile(UUID_B, "Bob", None);
    banned.banned = true;
    um.ban(&banned);
    assert!(um.is_registered(&UUID_B));
    assert!(um.is_banned(&UUID_B));
    assert!(!um.is_banned(&UUID_A));
}

#[test]
fn session_snapshot_lists_live_sessions() {
    let mut um = UManager::new();
    um.insert(UUID_A, "tok1".to_string(), profile(UUID_A, "Alice", Some("tok1"))).unwrap();
    um.insert(UUID_B, "tok2".to_string(), profile(UUID_B, "Bob", Some("tok2"))).unwrap();
    let mut sessions = um.get_all_authenticated();
    sessions.sort();
    assert_eq!(sessions, vec![("tok1".to_string(), UUID_A), ("tok2".to_string(), UUID_B)]);
}

#[test]
fn ban_forces_the_flag_on_a_new_profile() {
    let mut um = UManager::new();
    // Even a profile handed in without the flag ends up banned.
    let unflagged = profile(UUID_B, "Bob", None);
    assert!(!unflagged.banned);
    um.ban(&unflagged);
    assert!(um.is_banned(&UUID_B));
    assert_eq!(um.get_by_uuid(&UUID_B).unwrap().nickname, "Bob");
}
