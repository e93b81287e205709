use omega::crypto;
use omega::msg::{DataKey, Msg, MsgType};
use omega::presence::PresenceIndex;
use omega::records::OmikronRecord;
use omega::register::RegisterAllocator;
use omega::registry::OmikronRegistry;
use omega::session::{
    close_session, identification_continue, iota_connected_continue, session_step, IdleAction,
    IdleWatch, PendingTable, Phase, ServerKeys, Session, Step,
};
use omega::shortlink::ShortLinks;

fn keypair(seed: u8) -> (Vec<u8>, Vec<u8>) {
    let secret: Vec<u8> = (0..56).map(|i| seed.wrapping_add(i as u8) | 1).collect();
    let public = crypto::x448_derive_public(&secret).expect("56-byte secret");
    (secret, public)
}

struct World {
    s: Session,
    presence: PresenceIndex,
    registry: OmikronRegistry,
    links: ShortLinks,
    alloc: RegisterAllocator,
    keys: ServerKeys,
}

fn world() -> (World, Vec<u8>, Vec<u8>) {
    let (omega_sk, omega_pk) = keypair(1);
    let (omikron_sk, omikron_pk) = keypair(2);
    let keys = ServerKeys {
        secret: omega_sk,
        public_b64: crypto::public_key_to_b64(&omega_pk),
    };
    (
        World {
            s: Session::new(),
            presence: PresenceIndex::new(),
            registry: OmikronRegistry::new(),
            links: ShortLinks::new(),
            alloc: RegisterAllocator::new(),
            keys,
        },
        omikron_sk,
        omikron_pk,
    )
}

fn step(w: &mut World, msg: &Msg) -> Step {
    session_step(
        &mut w.s,
        &mut w.presence,
        &mut w.registry,
        &mut w.links,
        &mut w.alloc,
        &w.keys,
        msg,
    )
}

fn challenged_world() -> World {
    let (mut w, omikron_sk, omikron_pk) = world();
    let ident = Msg::new(MsgType::Identification, "A".to_string()).add_data_i64(DataKey::Omikron, 42);
    let r = step(&mut w, &ident);
    let (oid, msg_id) = match r {
        Step::NeedOmikronRecord { omikron_id, msg_id } => (omikron_id, msg_id),
        other => panic!("expected a record lookup, got {:?}", other),
    };
    assert_eq!(oid, 42);
    let record = OmikronRecord {
        id: 42,
        public_key: crypto::public_key_to_b64(&omikron_pk),
        ip_address: "203.0.113.9".to_string(),
    };
    let r = identification_continue(&mut w.s, &w.keys, oid, msg_id, Some(&record));
    let challenge_msg = match r {
        Step::Reply(m) => m,
        other => panic!("expected the challenge, got {:?}", other),
    };
    assert_eq!(challenge_msg.mtype, MsgType::Challenge);
    assert_eq!(challenge_msg.id, "A");
    let ct_b64 = challenge_msg.get_str(DataKey::Challenge).unwrap().clone();
    let ct = crypto::b64_decode(&ct_b64).unwrap();
    let omega_pk_b64 = challenge_msg.get_str(DataKey::PublicKey).unwrap().clone();
    let omega_pk = crypto::public_from_b64(&omega_pk_b64).unwrap();
    let plain = crypto::decrypt(&omikron_sk, &omega_pk, &ct).expect("peer can decrypt");
    let plain = String::from_utf8(plain).unwrap();
    let response =
        Msg::new(MsgType::ChallengeResponse, "A".to_string()).add_data_str(DataKey::Challenge, plain);
    let r = step(&mut w, &response);
    match r {
        Step::Reply(m) => {
            assert_eq!(m.mtype, MsgType::IdentificationResponse);
            assert_eq!(m.id, "A");
            assert_eq!(m.get_bool(DataKey::Accepted), Some(true));
        },
        other => panic!("expected acceptance, got {:?}", other),
    }
    assert_eq!(w.s.phase, Phase::Challenged);
    assert!(w.registry.get_omikron(42));
    w
}

#[test]
fn handshake_happy_path() {
    let w = challenged_world();
    assert_eq!(w.s.omikron_id, 42);
}

#[test]
fn handshake_wrong_challenge_closes_without_registering() {
    let (mut w, _omikron_sk, omikron_pk) = world();
    let ident = Msg::new(MsgType::Identification, "A".to_string()).add_data_i64(DataKey::Omikron, 42);
    let r = step(&mut w, &ident);
    let (oid, msg_id) = match r {
        Step::NeedOmikronRecord { omikron_id, msg_id } => (omikron_id, msg_id),
        other => panic!("expected a record lookup, got {:?}", other),
    };
    let record = OmikronRecord {
        id: 42,
        public_key: crypto::public_key_to_b64(&omikron_pk),
        ip_address: "203.0.113.9".to_string(),
    };
    identification_continue(&mut w.s, &w.keys, oid, msg_id, Some(&record));
    let response = Msg::new(MsgType::ChallengeResponse, "A".to_string())
        .add_data_str(DataKey::Challenge, "not the challenge".to_string());
    let r = step(&mut w, &response);
    match r {
        Step::ReplyAndClose(m) => {
            assert_eq!(m.mtype, MsgType::ErrorInvalidChallenge);
            assert_eq!(m.id, "A");
        },
        other => panic!("expected a closing error, got {:?}", other),
    }
    assert_eq!(w.s.phase, Phase::Closed);
    assert!(!w.registry.get_omikron(42));
}

#[test]
fn unknown_omikron_is_not_authenticated() {
    let (mut w, _, _) = world();
    let ident = Msg::new(MsgType::Identification, "A".to_string()).add_data_i64(DataKey::Omikron, 42);
    let r = step(&mut w, &ident);
    let (oid, msg_id) = match r {
        Step::NeedOmikronRecord { omikron_id, msg_id } => (omikron_id, msg_id),
        other => panic!("expected a record lookup, got {:?}", other),
    };
    let r = identification_continue(&mut w.s, &w.keys, oid, msg_id, None);
    match r {
        Step::ReplyAndClose(m) => assert_eq!(m.mtype, MsgType::ErrorNotAuthenticated),
        other => panic!("expected a closing error, got {:?}", other),
    }
    assert_eq!(w.s.phase, Phase::Closed);
}

#[test]
fn undecodable_stored_key_is_an_invalid_omikron_id() {
    let (mut w, _, _) = world();
    let record = OmikronRecord {
        id: 42,
        public_key: "!!! not base64 !!!".to_string(),
        ip_address: String::new(),
    };
    let r = identification_continue(&mut w.s, &w.keys, 42, "A".to_string(), Some(&record));
    match r {
        Step::ReplyAndClose(m) => assert_eq!(m.mtype, MsgType::ErrorInvalidOmikronId),
        other => panic!("expected a closing error, got {:?}", other),
    }
}

#[test]
fn wrong_length_stored_key_is_an_invalid_public_key() {
    let (mut w, _, _) = world();
    let record = OmikronRecord {
        id: 42,
        public_key: crypto::public_key_to_b64(&vec![1u8; 10]),
        ip_address: String::new(),
    };
    let r = identification_continue(&mut w.s, &w.keys, 42, "A".to_string(), Some(&record));
    match r {
        Step::ReplyAndClose(m) => assert_eq!(m.mtype, MsgType::ErrorInvalidPublicKey),
        other => panic!("expected a closing error, got {:?}", other),
    }
}

#[test]
fn frames_before_identification_close_the_session() {
    let (mut w, _, _) = world();
    let msg = Msg::new(MsgType::GetRegister, "B".to_string());
    let r = step(&mut w, &msg);
    match r {
        Step::ReplyAndClose(m) => {
            assert_eq!(m.mtype, MsgType::ErrorNotAuthenticated);
            assert_eq!(m.id, "B");
        },
        other => panic!("expected a closing error, got {:?}", other),
    }
    assert_eq!(w.s.phase, Phase::Closed);
}

#[test]
fn ping_bypasses_authentication_and_echoes() {
    let (mut w, _, _) = world();
    let ping = Msg::new(MsgType::Ping, "P".to_string()).add_data_i64(DataKey::LastPing, 77);
    let r = step(&mut w, &ping);
    match r {
        Step::Reply(m) => {
            assert_eq!(m.mtype, MsgType::Pong);
            assert_eq!(m.id, "P");
        },
        other => panic!("expected pong, got {:?}", other),
    }
    assert_eq!(w.s.last_ping_rtt_ms, 77);
    assert_eq!(w.s.phase, Phase::Opened);
}

#[test]
fn pending_response_is_consumed_exactly_once() {
    let mut w = challenged_world();
    assert!(w.s.pending.insert("req-1".to_string()));
    assert!(!w.s.pending.insert("req-1".to_string()));
    let answer = Msg::new(MsgType::GetUserData, "req-1".to_string());
    let r = step(&mut w, &answer);
    assert!(matches!(r, Step::Consumed));
    // the same id a second time is a fresh (here: unknown-key) request
    let r = step(&mut w, &answer);
    assert!(matches!(
        r,
        Step::NeedUserRecord { .. } | Step::Reply(_)
    ));
}

#[test]
fn iota_lifecycle_tracks_and_purges() {
    let mut w = challenged_world();
    let msg = Msg::new(MsgType::IotaConnected, "C".to_string()).add_data_i64(DataKey::IotaId, 100);
    let r = step(&mut w, &msg);
    let (iota_id, msg_id) = match r {
        Step::NeedIotaUsers { iota_id, msg_id } => (iota_id, msg_id),
        other => panic!("expected a user-list lookup, got {:?}", other),
    };
    assert_eq!(iota_id, 100);
    let users = vec![200, 201];
    let r = iota_connected_continue(&mut w.presence, w.s.omikron_id, msg_id, &users);
    match r {
        Step::Reply(m) => {
            assert_eq!(m.mtype, MsgType::IotaUserData);
            assert_eq!(m.id, "C");
            assert_eq!(m.get_int_list(DataKey::UserIds), Some(&vec![200, 201]));
        },
        other => panic!("expected the user list, got {:?}", other),
    }
    assert_eq!(w.presence.get_iota_primary_omikron_connection(100), Some(42));
    assert_eq!(w.presence.get_iota_omikron_connections(100), Some(vec![42]));
    let c = w.presence.get_user_status(200).unwrap();
    assert_eq!(c.connection_type, omega::status::ConnectionType::UserOffline);
    assert_eq!(c.omikron_id, 42);
    assert!(w.presence.get_user_status(201).is_some());

    let emptied = close_session(&mut w.s, &mut w.presence, &mut w.registry);
    assert_eq!(emptied, vec![100]);
    assert_eq!(w.s.phase, Phase::Closed);
    assert!(!w.registry.get_omikron(42));
    assert_eq!(w.presence.get_iota_primary_omikron_connection(100), None);
    assert_eq!(w.presence.get_iota_omikron_connections(100), None);
    assert!(w.presence.get_user_status(200).is_none());
    assert!(w.presence.get_user_status(201).is_none());
}

#[test]
fn get_register_hands_out_fresh_ids() {
    let mut w = challenged_world();
    let msg = Msg::new(MsgType::GetRegister, "R".to_string());
    let r = step(&mut w, &msg);
    let first = match r {
        Step::Reply(m) => {
            assert_eq!(m.mtype, MsgType::GetRegister);
            m.get_i64(DataKey::UserId).unwrap()
        },
        other => panic!("expected an id, got {:?}", other),
    };
    let r = step(&mut w, &msg);
    let second = match r {
        Step::Reply(m) => m.get_i64(DataKey::UserId).unwrap(),
        other => panic!("expected an id, got {:?}", other),
    };
    assert!(second > first);
}

#[test]
fn missing_required_field_is_invalid_data() {
    let mut w = challenged_world();
    let msg = Msg::new(MsgType::DeleteUser, "D".to_string());
    let r = step(&mut w, &msg);
    match r {
        Step::Reply(m) => {
            assert_eq!(m.mtype, MsgType::ErrorInvalidData);
            assert_eq!(m.id, "D");
        },
        other => panic!("expected invalid data, got {:?}", other),
    }
}

#[test]
fn unknown_type_is_ignored_while_authenticated() {
    let mut w = challenged_world();
    let msg = Msg::new(MsgType::Unknown, "U".to_string());
    let r = step(&mut w, &msg);
    assert!(matches!(r, Step::Done));
    assert_eq!(w.s.phase, Phase::Challenged);
}

#[test]
fn idle_watchdog_pings_then_closes() {
    let mut watch = IdleWatch::new();
    assert_eq!(watch.on_idle_expiry(), IdleAction::SendPing);
    assert_eq!(watch.on_idle_expiry(), IdleAction::Close);
    let mut watch = IdleWatch::new();
    assert_eq!(watch.on_idle_expiry(), IdleAction::SendPing);
    watch.on_frame();
    assert_eq!(watch.on_idle_expiry(), IdleAction::SendPing);
    assert_eq!(watch.on_idle_expiry(), IdleAction::Close);
}

#[test]
fn pending_table_take_is_single_shot() {
    let mut t = PendingTable::new();
    assert!(t.insert("x".to_string()));
    assert!(t.take("x"));
    assert!(!t.take("x"));
}

#[test]
fn shorten_link_round_trips_through_the_store() {
    let mut w = challenged_world();
    let msg = Msg::new(MsgType::ShortenLink, "L".to_string())
        .add_data_str(DataKey::Link, "https://example.com/page".to_string());
    let r = step(&mut w, &msg);
    let short = match r {
        Step::Reply(m) => {
            assert_eq!(m.mtype, MsgType::ShortenLink);
            m.get_str(DataKey::Link).unwrap().clone()
        },
        other => panic!("expected the short link, got {:?}", other),
    };
    let code = short.strip_prefix("omega.tensamin.net/direct/").unwrap();
    assert_eq!(
        w.links.get_short_link(code),
        Some("https://example.com/page".to_string())
    );
}

#[test]
fn change_user_data_plans_changes_in_order() {
    let mut w = challenged_world();
    let msg = Msg::new(MsgType::ChangeUserData, "M".to_string())
        .add_data_i64(DataKey::UserId, 200)
        .add_data_str(DataKey::Display, "display".to_string())
        .add_data_str(DataKey::PublicKey, "pk".to_string());
    let r = step(&mut w, &msg);
    match r {
        Step::ApplyUserChanges { user_id, changes, trailing_error, msg_id } => {
            assert_eq!(user_id, 200);
            assert_eq!(changes.len(), 1);
            assert!(matches!(changes[0], omega::session::UserChange::Display(_)));
            assert_eq!(
                trailing_error.as_deref(),
                Some("private_key_hash is required when changing public_key")
            );
            assert_eq!(msg_id, "M");
        },
        other => panic!("expected planned changes, got {:?}", other),
    }
}

#[test]
fn user_presence_follows_connect_and_disconnect() {
    let mut w = challenged_world();
    let connect = Msg::new(MsgType::UserConnected, "u1".to_string()).add_data_i64(DataKey::UserId, 200);
    assert!(matches!(step(&mut w, &connect), Step::Done));
    let c = w.presence.get_user_status(200).unwrap();
    assert_eq!(c.connection_type, omega::status::ConnectionType::Online);
    assert_eq!(c.omikron_id, 42);
    let disconnect =
        Msg::new(MsgType::UserDisconnected, "u2".to_string()).add_data_i64(DataKey::UserId, 200);
    assert!(matches!(step(&mut w, &disconnect), Step::Done));
    let c = w.presence.get_user_status(200).unwrap();
    assert_eq!(c.connection_type, omega::status::ConnectionType::UserOffline);
    assert_eq!(c.omikron_id, 42);
    // disconnecting an untracked user changes nothing
    let other = Msg::new(MsgType::UserDisconnected, "u3".to_string()).add_data_i64(DataKey::UserId, 9);
    assert!(matches!(step(&mut w, &other), Step::Done));
    assert!(w.presence.get_user_status(9).is_none());
}

#[test]
fn sync_marks_users_online_and_iotas_primary() {
    let mut w = challenged_world();
    let msg = Msg::new(MsgType::SyncClientIotaStatus, "s".to_string())
        .add_data_int_list(DataKey::UserIds, vec![200, 201])
        .add_data_int_list(DataKey::IotaIds, vec![100]);
    assert!(matches!(step(&mut w, &msg), Step::Done));
    assert_eq!(
        w.presence.get_user_status(200).unwrap().connection_type,
        omega::status::ConnectionType::Online
    );
    assert_eq!(
        w.presence.get_user_status(201).unwrap().omikron_id,
        42
    );
    assert_eq!(w.presence.get_iota_primary_omikron_connection(100), Some(42));
}

#[test]
fn iota_disconnected_untracks_the_announcement() {
    let mut w = challenged_world();
    let connect = Msg::new(MsgType::IotaConnected, "c".to_string()).add_data_i64(DataKey::IotaId, 100);
    step(&mut w, &connect);
    let disconnect =
        Msg::new(MsgType::IotaDisconnected, "d".to_string()).add_data_i64(DataKey::IotaId, 100);
    let r = step(&mut w, &disconnect);
    match r {
        Step::NeedIotaUsersForPurge { iota_id } => assert_eq!(iota_id, 100),
        other => panic!("expected the purge request, got {:?}", other),
    }
    assert_eq!(w.presence.get_iota_omikron_connections(100), None);
}

#[test]
fn get_user_data_routes_by_id_then_name() {
    let mut w = challenged_world();
    let by_both = Msg::new(MsgType::GetUserData, "g".to_string())
        .add_data_i64(DataKey::UserId, 200)
        .add_data_str(DataKey::Username, "alice".to_string());
    match step(&mut w, &by_both) {
        Step::NeedUserRecord { key, fallback, msg_id } => {
            assert!(matches!(key, omega::session::UserKey::ById(200)));
            assert!(matches!(fallback, Some(omega::session::UserKey::ByName(n)) if n == "alice"));
            assert_eq!(msg_id, "g");
        },
        other => panic!("expected the lookup, got {:?}", other),
    }
    let by_nothing = Msg::new(MsgType::GetUserData, "g2".to_string());
    match step(&mut w, &by_nothing) {
        Step::Reply(m) => assert_eq!(m.mtype, MsgType::ErrorNotFound),
        other => panic!("expected not found, got {:?}", other),
    }
}
