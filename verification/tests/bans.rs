use phira_mp::ban::{seconds_shown, BanInfo, BanManager, BanType};
use phira_mp::moderation::{ban_type_named, BanRequest, MaintenanceConfig};
use phira_mp::presence::Verdict;
use phira_mp::server::{ServerConfig, ServerState};

fn ban(user: Option<i32>, ip: Option<&str>, kind: BanType, start: u64, duration: u64) -> BanInfo {
    BanInfo {
        user_id: user,
        user_name: None,
        ip_address: ip.map(str::to_string),
        ban_reason: "why".to_string(),
        ban_start: start,
        ban_duration: duration,
        banned_by: "admin".to_string(),
        ban_type: kind,
    }
}

#[test]
fn bans_end() {
    let b = ban(Some(1), None, BanType::UserId, 100, 50);
    assert_eq!(b.ban_end_time(), 150);
    assert!(!b.is_expired_at(149));
    assert!(b.is_expired_at(150));
    assert_eq!(b.remaining_time_at(120), 30);
    assert_eq!(b.remaining_time_at(200), 0);
    assert!(b.is_expired());
    assert_eq!(b.remaining_time(), 0);
    let far = ban(Some(1), None, BanType::UserId, 0, u64::MAX);
    assert!(!far.is_expired());
    assert!(far.remaining_time() < u64::MAX);
}

#[test]
fn bans_match_what_they_are_on() {
    let user = ban(Some(1), Some("1.1.1.1"), BanType::UserId, 0, 1);
    assert!(user.matches_user(1) && !user.matches_user(2) && !user.matches_ip("1.1.1.1"));
    let ip = ban(Some(1), Some("1.1.1.1"), BanType::Ip, 0, 1);
    assert!(!ip.matches_user(1) && ip.matches_ip("1.1.1.1") && !ip.matches_ip("1.1.1.2"));
    let both = ban(Some(1), Some("1.1.1.1"), BanType::UserIdAndIp, 0, 1);
    assert!(both.matches_user(1) && both.matches_ip("1.1.1.1"));
}

#[test]
fn managers_find_bans() {
    let mut m = BanManager::new();
    m.add_ban(ban(Some(1), None, BanType::UserId, 0, 100));
    m.add_ban(ban(None, Some("9.9.9.9"), BanType::Ip, 0, 200));
    assert!(m.is_user_banned(1, 99).is_some());
    assert!(m.is_user_banned(1, 100).is_none());
    assert!(m.is_ip_banned("9.9.9.9", 150).is_some());
    assert!(m.is_user_or_ip_banned(2, "9.9.9.9", 150).is_some());
    assert!(m.is_user_or_ip_banned(2, "8.8.8.8", 150).is_none());
    assert_eq!(m.get_all_bans(150).len(), 1);
    m.cleanup_expired_bans(150);
    assert_eq!(m.get_all_bans(0).len(), 1);
    assert!(m.have_ends());
}

#[test]
fn bans_are_lifted() {
    let mut m = BanManager::new();
    m.add_ban(ban(Some(7), None, BanType::UserId, 0, 100));
    assert!(m.unban(&"8".to_string()).is_err());
    assert!(m.unban(&"7".to_string()).is_ok());
    assert!(m.is_user_banned(7, 1).is_none());
    assert_eq!(m.unban(&"7".to_string()), Err("未找到对应的封禁记录".to_string()));
}

#[test]
fn bans_are_restored() {
    let mut m = BanManager::new();
    m.add_ban(ban(Some(1), None, BanType::UserId, 0, 100));
    m.restore(vec![("k".to_string(), ban(Some(2), None, BanType::UserId, 0, 100))]);
    assert!(m.is_user_banned(1, 1).is_none());
    assert!(m.is_user_banned(2, 1).is_some());
    m.restore(vec![("k".to_string(), ban(Some(2), None, BanType::UserId, 1, u64::MAX))]);
    assert!(!m.have_ends());
}

fn request(kind: &str) -> BanRequest {
    BanRequest {
        user_id: Some(5),
        user_name: Some("five".to_string()),
        ip_address: Some("5.5.5.5".to_string()),
        ban_reason: "r".to_string(),
        ban_duration: 60,
        banned_by: "admin".to_string(),
        ban_type: kind.to_string(),
    }
}

#[test]
fn kinds_of_bans_have_names() {
    assert_eq!(ban_type_named("user"), Some(BanType::UserId));
    assert_eq!(ban_type_named("ip"), Some(BanType::Ip));
    assert_eq!(ban_type_named("user_and_ip"), Some(BanType::UserIdAndIp));
    assert_eq!(ban_type_named("User"), None);
}

#[test]
fn banned_users_stay_out() {
    let mut s = ServerState::new(ServerConfig::default());
    assert_eq!(s.judge_arrival(5, &"1.2.3.4".to_string(), 100), Verdict::Welcome);
    assert_eq!(s.ban(request("user"), 100), Ok(vec![]));
    assert!(matches!(s.judge_arrival(5, &"1.2.3.4".to_string(), 159), Verdict::Banned(_)));
    assert_eq!(s.judge_arrival(5, &"1.2.3.4".to_string(), 160), Verdict::Welcome);
    assert_eq!(s.judge_arrival(6, &"5.5.5.5".to_string(), 100), Verdict::Welcome);
    assert_eq!(s.ban(request("ip"), 100), Ok(vec![]));
    assert!(matches!(s.judge_arrival(6, &"5.5.5.5".to_string(), 100), Verdict::Banned(_)));
    let e = s.ban(request("else"), 100).unwrap_err();
    assert_eq!((e.status, e.text.as_str()), (400, "无效的封禁类型"));
}

#[test]
fn maintenance_shuts_others_out() {
    let mut s = ServerState::new(ServerConfig::default());
    s.set_whitelist("1, 2");
    s.set_maintenance(true);
    let ip = "1.2.3.4".to_string();
    assert_eq!(s.judge_arrival(1, &ip, 0), Verdict::Welcome);
    assert_eq!(s.judge_arrival(3, &ip, 0), Verdict::Maintenance);
    assert_eq!(
        s.maintenance_config(),
        MaintenanceConfig { enabled: true, whitelist: vec![1, 2] }
    );
    s.restore_maintenance(false, &vec![4, 4, 5]);
    assert_eq!(
        s.maintenance_config(),
        MaintenanceConfig { enabled: false, whitelist: vec![4, 5] }
    );
    assert_eq!(MaintenanceConfig::default().whitelist, Vec::<i32>::new());
}

#[test]
fn a_clock_before_the_epoch_shows_zero() {
    assert_eq!(seconds_shown(Some(1_700_000_000)), 1_700_000_000);
    assert_eq!(seconds_shown(None), 0);
}

#[test]
fn a_ban_on_the_user_is_shown_first() {
    let mut s = ServerState::new(ServerConfig::default());
    s.ban_manager.add_ban(ban(None, Some("9.9.9.9"), BanType::Ip, 0, 100));
    s.ban_manager.add_ban(ban(Some(1), None, BanType::UserId, 0, 100));
    match s.judge_arrival(1, &"9.9.9.9".to_string(), 50) {
        Verdict::Banned(b) => assert_eq!(b.ban_type, BanType::UserId),
        other => panic!("{other:?}"),
    }
}

#[test]
fn restored_bans_stand_once() {
    let mut m = BanManager::new();
    let entries = vec![
        ("k".to_string(), ban(Some(1), None, BanType::UserId, 0, 10)),
        ("k".to_string(), ban(Some(2), None, BanType::UserId, 0, 20)),
    ];
    m.restore(entries);
    assert_eq!(m.banned_items.len(), 1);
    assert!(m.is_user_banned(2, 5).is_some());
    assert!(m.is_user_banned(1, 5).is_none());
}
