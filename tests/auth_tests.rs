use ratatoskr::auth::{AuthService, UserEntry, UsersConfig};
use std::path::PathBuf;

fn make_entry(system_user: &str, tg_id: Option<u64>, promote: bool, usernames: Vec<&str>) -> UserEntry {
    UserEntry {
        system_user: system_user.to_string(),
        enabled: true,
        telegram_user_id: tg_id,
        promote_on_first_auth: promote,
        pipe_dir: "/tmp/test.sock".to_string(),
        allowed_usernames: usernames.into_iter().map(String::from).collect(),
        first_seen_at: None,
        last_seen_at: None,
    }
}

#[test]
fn check_by_telegram_id() {
    let config = UsersConfig {
        users: vec![make_entry("alice", Some(111), false, vec![])],
    };
    let svc = AuthService::new(config, PathBuf::from("/tmp/test.toml"));
    assert!(svc.check(111, None).is_some());
    assert!(svc.check(999, None).is_none());
}

#[test]
fn check_by_username_with_promote() {
    let config = UsersConfig {
        users: vec![make_entry("bob", None, true, vec!["BobTG"])],
    };
    let svc = AuthService::new(config, PathBuf::from("/tmp/test.toml"));
    assert!(svc.check(555, Some("bobtg")).is_some());
    assert!(svc.check(555, Some("unknown")).is_none());
    assert!(svc.check(555, None).is_none());
}

#[test]
fn check_disabled_user_rejected() {
    let mut entry = make_entry("carol", Some(222), false, vec![]);
    entry.enabled = false;
    let config = UsersConfig { users: vec![entry] };
    let svc = AuthService::new(config, PathBuf::from("/tmp/test.toml"));
    assert!(svc.check(222, None).is_none());
}

#[test]
fn promote_captures_id_and_clears_usernames() {
    let config = UsersConfig {
        users: vec![make_entry("dave", None, true, vec!["DaveTG"])],
    };
    let mut svc = AuthService::new(config, PathBuf::from("/tmp/test.toml"));
    assert!(svc.promote(0, 777));
    assert_eq!(svc.config.users[0].telegram_user_id, Some(777));
    assert!(svc.config.users[0].allowed_usernames.is_empty());
    assert!(!svc.config.users[0].promote_on_first_auth);
}

#[test]
fn promote_out_of_range_changes_nothing() {
    let config = UsersConfig {
        users: vec![make_entry("dave", None, true, vec!["DaveTG"])],
    };
    let mut svc = AuthService::new(config, PathBuf::from("/tmp/test.toml"));
    assert!(!svc.promote(3, 777));
    assert_eq!(svc.config.users[0].telegram_user_id, None);
    assert_eq!(svc.config.users[0].allowed_usernames, vec!["DaveTG".to_string()]);
}

#[test]
fn promoted_user_matches_by_id_only() {
    let config = UsersConfig {
        users: vec![make_entry("erin", None, true, vec!["ErinTG"])],
    };
    let mut svc = AuthService::new(config, PathBuf::from("/tmp/test.toml"));
    assert_eq!(svc.check(42, Some("erintg")), Some(0));
    svc.promote(0, 42);
    assert_eq!(svc.check(42, None), Some(0));
    assert_eq!(svc.check(43, Some("ErinTG")), None);
}

#[test]
fn id_match_takes_precedence_over_username() {
    let config = UsersConfig {
        users: vec![
            make_entry("first", None, true, vec!["Zed"]),
            make_entry("second", Some(9), false, vec![]),
        ],
    };
    let svc = AuthService::new(config, PathBuf::from("/tmp/test.toml"));
    assert_eq!(svc.check(9, Some("zed")), Some(1));
    assert_eq!(svc.check(8, Some("ZED")), Some(0));
}

#[test]
fn username_needs_promote_flag() {
    let config = UsersConfig {
        users: vec![make_entry("frank", None, false, vec!["Frank"])],
    };
    let svc = AuthService::new(config, PathBuf::from("/tmp/test.toml"));
    assert_eq!(svc.check(1, Some("frank")), None);
}

#[test]
fn first_enabled_entry_wins() {
    let mut off = make_entry("off", Some(5), false, vec![]);
    off.enabled = false;
    let config = UsersConfig {
        users: vec![off, make_entry("a", Some(5), false, vec![]), make_entry("b", Some(5), false, vec![])],
    };
    let svc = AuthService::new(config, PathBuf::from("/tmp/test.toml"));
    assert_eq!(svc.check(5, None), Some(1));
}

#[test]
fn empty_list_and_lookup() {
    let svc = AuthService::new(UsersConfig { users: vec![] }, PathBuf::from("/tmp/test.toml"));
    assert!(svc.is_empty());
    assert_eq!(svc.user_count(), 0);
    assert!(svc.get_user(0).is_none());
    assert_eq!(svc.check(1, Some("x")), None);
    let svc = AuthService::new(
        UsersConfig { users: vec![make_entry("g", None, false, vec![])] },
        PathBuf::from("/tmp/test.toml"),
    );
    assert!(!svc.is_empty());
    assert_eq!(svc.get_user(0).unwrap().system_user, "g");
    assert!(ratatoskr::auth::default_true());
}
