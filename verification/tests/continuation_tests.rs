use omega::msg::{DataKey, Msg, MsgType};
use omega::presence::PresenceIndex;
use omega::records::{IotaRecord, UserRecord};
use omega::session::{
    build_user_data_reply, change_iota_continue, create_iota_reply, get_iota_data_continue,
    get_iota_data_user_continue, get_user_data_continue, notifications_reply, write_result_reply,
    RepoOp, Step, UserKey,
};
use omega::status::ConnectionType;

fn user(id: i64, iota_id: i64) -> UserRecord {
    UserRecord {
        id,
        iota_id,
        username: format!("user{}", id),
        display: Some("shown".to_string()),
        status: None,
        about: None,
        avatar: None,
        sub_level: 2,
        sub_end: 99,
        public_key: "PK".to_string(),
        private_key_hash: "H".to_string(),
        reset_token: "tok".to_string(),
    }
}

#[test]
fn user_data_reply_carries_the_presence_snapshot() {
    let mut presence = PresenceIndex::new();
    presence.track_iota_connection(100, 7, true);
    presence.track_iota_connection(100, 8, false);
    presence.track_user_status(200, ConnectionType::Online, 7);
    let m = build_user_data_reply(&presence, "Q".to_string(), &user(200, 100));
    assert_eq!(m.mtype, MsgType::GetUserData);
    assert_eq!(m.id, "Q");
    assert_eq!(m.get_str(DataKey::Username).map(|s| s.as_str()), Some("user200"));
    assert_eq!(m.get_i64(DataKey::UserId), Some(200));
    assert_eq!(m.get_i64(DataKey::IotaId), Some(100));
    assert_eq!(m.get_i64(DataKey::SubLevel), Some(2));
    assert_eq!(m.get_i64(DataKey::SubEnd), Some(99));
    assert_eq!(m.get_str(DataKey::Display).map(|s| s.as_str()), Some("shown"));
    assert_eq!(m.get_str(DataKey::Status), None);
    assert_eq!(m.get_int_list(DataKey::OmikronConnections), Some(&vec![7, 8]));
    assert_eq!(m.get_str(DataKey::OnlineStatus).map(|s| s.as_str()), Some("online"));
    assert_eq!(m.get_i64(DataKey::OmikronId), Some(7));
}

#[test]
fn user_data_reply_reports_iota_offline_when_untracked() {
    let presence = PresenceIndex::new();
    let m = build_user_data_reply(&presence, "Q".to_string(), &user(200, 100));
    assert_eq!(m.get_str(DataKey::OnlineStatus).map(|s| s.as_str()), Some("iota_offline"));
    assert_eq!(m.get_i64(DataKey::OmikronId), None);
    assert_eq!(m.get_int_list(DataKey::OmikronConnections), Some(&vec![]));
}

#[test]
fn user_lookup_falls_back_to_the_second_key() {
    let presence = PresenceIndex::new();
    let fallback = Some(UserKey::ByName("alice".to_string()));
    let r = get_user_data_continue(&presence, "Q".to_string(), None, fallback);
    match r {
        Step::NeedUserRecord { key, fallback, msg_id } => {
            assert!(matches!(key, UserKey::ByName(n) if n == "alice"));
            assert!(fallback.is_none());
            assert_eq!(msg_id, "Q");
        },
        other => panic!("expected the fallback lookup, got {:?}", other),
    }
    let r = get_user_data_continue(&presence, "Q".to_string(), None, None);
    match r {
        Step::Reply(m) => {
            assert_eq!(m.mtype, MsgType::ErrorNotFound);
            assert_eq!(m.id, "Q");
        },
        other => panic!("expected not found, got {:?}", other),
    }
}

#[test]
fn iota_lookup_cascades_through_the_user() {
    let u = user(200, 100);
    let r = get_iota_data_user_continue("Q".to_string(), Some(&u), None);
    match r {
        Step::NeedIotaRecord { iota_id, user_id, username, msg_id } => {
            assert_eq!(iota_id, 100);
            assert_eq!(user_id, Some(200));
            assert_eq!(username.as_deref(), Some("user200"));
            assert_eq!(msg_id, "Q");
        },
        other => panic!("expected the iota lookup, got {:?}", other),
    }
    let mut presence = PresenceIndex::new();
    presence.track_iota_connection(100, 7, true);
    let iota = IotaRecord { id: 100, public_key: "IPK".to_string() };
    let r = get_iota_data_continue(
        &presence,
        "Q".to_string(),
        Some(&iota),
        Some(200),
        Some("user200".to_string()),
    );
    match r {
        Step::Reply(m) => {
            assert_eq!(m.mtype, MsgType::GetIotaData);
            assert_eq!(m.get_i64(DataKey::IotaId), Some(100));
            assert_eq!(m.get_i64(DataKey::UserId), Some(200));
            assert_eq!(m.get_str(DataKey::PublicKey).map(|s| s.as_str()), Some("IPK"));
            assert_eq!(m.get_int_list(DataKey::OmikronConnections), Some(&vec![7]));
        },
        other => panic!("expected the iota data, got {:?}", other),
    }
}

#[test]
fn iota_change_requires_the_matching_token() {
    let u = user(200, 100);
    let r = change_iota_continue("Q".to_string(), Some(&u), 101, "tok", "new".to_string());
    match r {
        Step::RepoWrite { op, msg_id } => {
            match op {
                RepoOp::ChangeIota { user_id, iota_id, new_token } => {
                    assert_eq!(user_id, 200);
                    assert_eq!(iota_id, 101);
                    assert_eq!(new_token, "new");
                },
                other => panic!("expected the iota change, got {:?}", other),
            }
            assert_eq!(msg_id, "Q");
        },
        other => panic!("expected the write, got {:?}", other),
    }
    let r = change_iota_continue("Q".to_string(), Some(&u), 101, "wrong", "new".to_string());
    match r {
        Step::Reply(m) => assert_eq!(m.mtype, MsgType::ErrorInvalidChallenge),
        other => panic!("expected the token error, got {:?}", other),
    }
    let r = change_iota_continue("Q".to_string(), None, 101, "tok", "new".to_string());
    match r {
        Step::Reply(m) => assert_eq!(m.mtype, MsgType::ErrorNotFound),
        other => panic!("expected not found, got {:?}", other),
    }
}

#[test]
fn write_outcomes_become_success_or_error() {
    let ok = write_result_reply("W".to_string(), None);
    assert_eq!(ok.mtype, MsgType::Success);
    assert_eq!(ok.id, "W");
    let err = write_result_reply("W".to_string(), Some("boom".to_string()));
    assert_eq!(err.mtype, MsgType::Error);
    assert_eq!(err.get_str(DataKey::ErrorType).map(|s| s.as_str()), Some("boom"));
}

#[test]
fn fresh_iota_reply_carries_the_new_id() {
    let ok = create_iota_reply("W".to_string(), Ok(5));
    assert_eq!(ok.mtype, MsgType::CompleteRegisterIota);
    assert_eq!(ok.get_i64(DataKey::IotaId), Some(5));
    let err = create_iota_reply("W".to_string(), Err("taken".to_string()));
    assert_eq!(err.mtype, MsgType::Error);
}

#[test]
fn notifications_reply_lists_the_pairs() {
    let m = notifications_reply("N".to_string(), vec![(3, 2), (4, 1)]);
    assert_eq!(m.mtype, MsgType::GetNotifications);
    assert_eq!(m.id, "N");
    match m.data.iter().find(|(k, _)| *k == DataKey::Notifications) {
        Some((_, omega::msg::DataVal::Pairs(v))) => assert_eq!(v, &vec![(3, 2), (4, 1)]),
        other => panic!("expected the pair list, got {:?}", other),
    }
}
