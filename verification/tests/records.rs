use floatctf_api::content::{
    check_author, check_comment_access, check_parent, checked_challenges, count_after_like,
    count_after_unlike, ChallengeCheckRequest,
    merged_ids, AnnouncementRecord, ChallengeCheckResult, ChallengeRecord, ChallengeSetRecord,
    DiscussionRecord, EventAnnouncementRecord, PatchAnnouncementRequest, PatchChallengeRequest,
    PatchChallengeSetRequest, PatchCommentRequest, PatchDiscussionRequest,
    PatchEventAnnouncementRequest, PatchSuperAdminRequest, PatchWeaponRequest, PathUserRequest,
    SuperAdminRecord, UserRecord, WeaponRecord,
};
use floatctf_api::error::UniError;
use floatctf_api::settings::{
    default_settings, seed_settings, setting_value, PatchSettingRequest, SettingOverrides, SettingRecord,
    SettingValueType,
};

#[test]
fn default_settings_use_the_environment_where_given() {
    let env = SettingOverrides {
        instance_destroy_delay: None,
        event_score_decay: Some("20".into()),
        event_score_min_percent: None,
        challenges_dir: None,
        http_prefix: Some("https://".into()),
        node_ip: None,
        upload_dir: None,
    };
    let d = default_settings(&env);
    assert_eq!(d.len(), 10);
    assert_eq!(d[0].key, "INSTANCE_DESTROY_DELAY");
    assert_eq!(d[0].value, "60");
    assert_eq!(d[0].value_type, SettingValueType::Integer);
    assert_eq!(d[1].value, "20");
    assert_eq!(d[2].value, "0.45");
    assert_eq!(d[2].value_type, SettingValueType::Float);
    assert_eq!(d[4].value, "https://");
    assert_eq!(d[7].key, "FLAG_PREFIX");
    assert_eq!(d[7].value, "flag");
    assert_eq!(d[9].key, "IMAGE_DIR");
}

#[test]
fn reading_settings() {
    assert_eq!(setting_value("NODE_IP", Some("1.2.3.4".into())), Ok("1.2.3.4".to_string()));
    assert_eq!(setting_value("NODE_IP", None), Err("Setting not found:NODE_IP".to_string()));
}

fn challenge() -> ChallengeRecord {
    ChallengeRecord {
        name: "n".into(),
        category: "web".into(),
        description: "d".into(),
        attachment: None,
        hidden: false,
        toml_str: "t".into(),
    }
}

#[test]
fn patches_replace_given_fields() {
    let p = PatchChallengeRequest {
        name: Some("new".into()),
        category: None,
        description: None,
        attachment: Some("a.zip".into()),
        hidden: Some(true),
        toml_str: None,
    };
    let c = p.clone().apply(challenge());
    assert_eq!(c.name, "new");
    assert_eq!(c.category, "web");
    assert_eq!(c.attachment, Some("a.zip".to_string()));
    assert!(c.hidden);
    // the same change twice is the change once
    let twice = p.apply(c.clone());
    assert_eq!(twice.name, c.name);
    assert_eq!(twice.attachment, c.attachment);
    assert_eq!(twice.hidden, c.hidden);
    // an empty change keeps everything
    let empty = PatchChallengeRequest { name: None, category: None, description: None, attachment: None, hidden: None, toml_str: None };
    let same = empty.apply(challenge());
    assert_eq!(same.name, "n");
    assert_eq!(same.attachment, None);
}

#[test]
fn other_patches() {
    let a = PatchAnnouncementRequest { title: None, content: Some(None) }
        .apply(AnnouncementRecord { title: "t".into(), content: Some("c".into()) });
    assert_eq!(a.title, "t");
    assert_eq!(a.content, None);
    let s = PatchChallengeSetRequest { name: None, description: Some("d".into()) }
        .apply(ChallengeSetRecord { name: "s".into(), description: None });
    assert_eq!(s.description, Some("d".to_string()));
    let w = PatchWeaponRequest { name: None, category: None, description: None, has_file: Some(true), file_url: None, download_count: Some(3) }
        .apply(WeaponRecord { name: "w".into(), category: "c".into(), description: None, has_file: false, file_url: "u".into(), download_count: 0 });
    assert!(w.has_file);
    assert_eq!(w.download_count, 3);
    let u = PathUserRequest { username: None, nickname: Some("N".into()), password: Some("p".into()), email: None }
        .apply(UserRecord { username: "u".into(), nickname: "n".into(), password: "old".into(), email: "e".into() }, Some("hashed".into()));
    assert_eq!(u.password, "hashed");
    assert_eq!(u.nickname, "N");
    let sa = PatchSuperAdminRequest { username: Some("r".into()), password: None, email: None }
        .apply(SuperAdminRecord { username: "x".into(), password: "h".into(), email: "e".into() }, None);
    assert_eq!(sa.username, "r");
    assert_eq!(sa.password, "h");
    let st = PatchSettingRequest { key: None, value: Some("v2".into()), description: None, protected: Some(true), value_type: None }
        .apply(SettingRecord { key: "K".into(), value: "v".into(), description: "d".into(), protected: false, value_type: SettingValueType::String });
    assert_eq!(st.value, "v2");
    assert!(st.protected);
    assert_eq!(st.key, "K");
    let d = PatchDiscussionRequest { title: Some("T".into()), content: None }
        .apply(DiscussionRecord { title: "t".into(), content: "c".into() });
    assert_eq!(d.title, "T");
    assert_eq!(d.content, "c");
    assert_eq!(PatchCommentRequest { content: None }.apply("keep".into()), "keep");
    let ea = PatchEventAnnouncementRequest { title: None, content: Some("new".into()) }
        .apply(EventAnnouncementRecord { title: "t".into(), content: "c".into() });
    assert_eq!(ea.content, "new");
}

#[test]
fn discussion_permissions_and_counts() {
    assert!(check_author(1, 1).is_ok());
    assert!(matches!(check_author(1, 2), Err(UniError::NotEnoughPermission)));
    assert!(matches!(check_comment_access(5, 6, 1, 1), Err(UniError::BadRequest(m)) if m == "Comment does not belong to this discussion"));
    assert!(matches!(check_comment_access(5, 5, 1, 2), Err(UniError::NotEnoughPermission)));
    assert!(check_comment_access(5, 5, 1, 1).is_ok());
    assert!(matches!(check_parent(5, 6), Err(UniError::BadRequest(m)) if m == "Parent comment does not belong to this discussion"));
    assert!(check_parent(5, 5).is_ok());
    assert_eq!(count_after_like(4), 5);
    assert_eq!(count_after_unlike(5), 4);
    assert_eq!(count_after_unlike(0), 0);
    assert_eq!(count_after_unlike(count_after_like(0)), 0);
}

#[test]
fn merged_ids_put_the_single_one_first() {
    assert_eq!(merged_ids(Some(1), Some(vec![2, 3])), vec![1, 2, 3]);
    assert_eq!(merged_ids(None, Some(vec![2])), vec![2]);
    assert_eq!(merged_ids::<u8>(None, None), Vec::<u8>::new());
    let id = uuid::Uuid::nil();
    let r = ChallengeCheckResult::new(id, "c".into(), true, false);
    assert!(!r.is_ok);
    assert!(ChallengeCheckResult::new(id, "c".into(), true, true).is_ok);
}

#[test]
fn challenge_check_covers_all_when_list_empty() {
    let ids = vec![7u128, 3, 9, 3];
    assert_eq!(checked_challenges(&None, &ids), vec![0, 1, 2, 3]);
    assert_eq!(checked_challenges(&Some(vec![]), &ids), vec![0, 1, 2, 3]);
    assert_eq!(checked_challenges(&Some(vec![3, 42]), &ids), vec![1, 3]);
    assert_eq!(checked_challenges(&Some(vec![42]), &ids), Vec::<usize>::new());
    assert!(ChallengeCheckRequest { challenge_id_list: None }.checks_all());
    assert!(ChallengeCheckRequest { challenge_id_list: Some(vec![]) }.checks_all());
    assert!(!ChallengeCheckRequest { challenge_id_list: Some(vec![uuid::Uuid::nil()]) }.checks_all());
}

#[test]
fn seeding_settings_keeps_rows_and_is_idempotent() {
    let env = SettingOverrides {
        instance_destroy_delay: None,
        event_score_decay: None,
        event_score_min_percent: None,
        challenges_dir: None,
        http_prefix: None,
        node_ip: None,
        upload_dir: None,
    };
    let defaults = default_settings(&env);
    let existing = vec!["FLAG_PREFIX".to_string(), "NODE_IP".to_string()];
    let inserted = seed_settings(&existing, &defaults);
    assert_eq!(inserted.len(), 8);
    assert!(inserted.iter().all(|d| d.key != "FLAG_PREFIX" && d.key != "NODE_IP"));
    let decay = inserted.iter().find(|d| d.key == "EVENT_SCORE_DECAY").unwrap();
    assert_eq!(decay.value, "15");
    let mut after = existing.clone();
    after.extend(inserted.iter().map(|d| d.key.clone()));
    assert!(seed_settings(&after, &defaults).is_empty());
    assert_eq!(seed_settings(&vec![], &defaults).len(), 10);
}
