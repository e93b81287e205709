use omega::msg::{type_from_str, type_to_str, DataKey, Msg, MsgType};
use omega::status::ConnectionType;

#[test]
fn builders_and_getters_round_trip() {
    let m = Msg::new(MsgType::GetUserData, "id-1".to_string())
        .add_data_i64(DataKey::UserId, 9)
        .add_data_str(DataKey::Username, "alice".to_string())
        .add_data_bool(DataKey::Accepted, true)
        .add_data_int_list(DataKey::UserIds, vec![1, 2, 3]);
    assert_eq!(m.get_i64(DataKey::UserId), Some(9));
    assert_eq!(m.get_str(DataKey::Username).map(|s| s.as_str()), Some("alice"));
    assert_eq!(m.get_bool(DataKey::Accepted), Some(true));
    assert_eq!(m.get_int_list(DataKey::UserIds), Some(&vec![1, 2, 3]));
    assert_eq!(m.get_i64(DataKey::IotaId), None);
    assert_eq!(m.get_str(DataKey::UserId).map(|s| s.as_str()), None);
}

#[test]
fn a_repeated_key_takes_the_later_value() {
    let m = Msg::new(MsgType::Ping, "x".to_string())
        .add_data_i64(DataKey::LastPing, 1)
        .add_data_i64(DataKey::LastPing, 2);
    assert_eq!(m.get_i64(DataKey::LastPing), Some(2));
}

#[test]
fn type_names_round_trip() {
    for t in [
        MsgType::Identification,
        MsgType::Challenge,
        MsgType::ChallengeResponse,
        MsgType::IdentificationResponse,
        MsgType::Ping,
        MsgType::Pong,
        MsgType::IotaUserData,
        MsgType::SyncClientIotaStatus,
        MsgType::ErrorInvalidChallenge,
        MsgType::ReadNotification,
    ] {
        let name = type_to_str(t).to_string();
        assert_eq!(type_from_str(&name), t);
    }
    assert_eq!(type_from_str(&"identification".to_string()), MsgType::Identification);
    assert_eq!(type_from_str(&"no_such_type".to_string()), MsgType::Unknown);
}

#[test]
fn status_names_round_trip() {
    for c in [
        ConnectionType::Online,
        ConnectionType::UserOffline,
        ConnectionType::IotaOffline,
        ConnectionType::Away,
        ConnectionType::DoNotDisturb,
    ] {
        assert_eq!(ConnectionType::from_str(c.to_str()), Some(c));
    }
    assert_eq!(ConnectionType::from_str("ONLINE"), Some(ConnectionType::Online));
    assert_eq!(ConnectionType::from_str("Do_Not_Disturb"), Some(ConnectionType::DoNotDisturb));
    assert_eq!(ConnectionType::from_str("gone"), None);
    assert_eq!(ConnectionType::Online.to_string(), "online");
}
