use omega::presence::PresenceIndex;
use omega::records::{OmikronRecord, UserRecord};
use omega::resolver::{resolve_begin, resolve_omikron_reply, resolve_user_reply, ResolveAction};

fn omikron(id: i64) -> OmikronRecord {
    OmikronRecord {
        id,
        public_key: format!("P{}", id),
        ip_address: format!("198.51.100.{}", id),
    }
}

fn user(id: i64, iota_id: i64) -> UserRecord {
    UserRecord {
        id,
        iota_id,
        username: format!("user{}", id),
        display: None,
        status: None,
        about: None,
        avatar: None,
        sub_level: 0,
        sub_end: 0,
        public_key: String::new(),
        private_key_hash: String::new(),
        reset_token: String::new(),
    }
}

#[test]
fn an_omikron_id_resolves_to_itself() {
    let presence = PresenceIndex::new();
    let (mut res, action) = resolve_begin(7);
    let id = match action {
        ResolveAction::LookupOmikron(id) => id,
        other => panic!("expected an omikron lookup, got {:?}", other),
    };
    assert_eq!(id, 7);
    let r = resolve_omikron_reply(&mut res, &presence, Some(omikron(7)));
    match r {
        ResolveAction::Found(rec) => assert_eq!(rec.id, 7),
        other => panic!("expected the record, got {:?}", other),
    }
}

#[test]
fn an_iota_id_resolves_to_its_primary() {
    let mut presence = PresenceIndex::new();
    presence.track_iota_connection(100, 7, true);
    let (mut res, _) = resolve_begin(100);
    let r = resolve_omikron_reply(&mut res, &presence, None);
    match r {
        ResolveAction::LookupOmikron(id) => assert_eq!(id, 7),
        other => panic!("expected the primary lookup, got {:?}", other),
    }
    let r = resolve_omikron_reply(&mut res, &presence, Some(omikron(7)));
    match r {
        ResolveAction::Found(rec) => {
            assert_eq!(rec.id, 7);
            assert_eq!(rec.public_key, "P7");
            assert_eq!(rec.ip_address, "198.51.100.7");
        },
        other => panic!("expected the record, got {:?}", other),
    }
}

#[test]
fn a_user_id_resolves_through_its_home_iota() {
    let mut presence = PresenceIndex::new();
    presence.track_iota_connection(100, 7, true);
    let (mut res, _) = resolve_begin(200);
    // 200 is no omikron
    let r = resolve_omikron_reply(&mut res, &presence, None);
    match r {
        ResolveAction::LookupUser(id) => assert_eq!(id, 200),
        other => panic!("expected the user lookup, got {:?}", other),
    }
    let u = user(200, 100);
    let r = resolve_user_reply(&mut res, &presence, Some(&u));
    match r {
        ResolveAction::LookupOmikron(id) => assert_eq!(id, 7),
        other => panic!("expected the primary lookup, got {:?}", other),
    }
    let r = resolve_omikron_reply(&mut res, &presence, Some(omikron(7)));
    match r {
        ResolveAction::Found(rec) => assert_eq!(rec.id, 7),
        other => panic!("expected the record, got {:?}", other),
    }
}

#[test]
fn an_unknown_id_resolves_to_nothing() {
    let presence = PresenceIndex::new();
    let (mut res, _) = resolve_begin(5);
    let r = resolve_omikron_reply(&mut res, &presence, None);
    match r {
        ResolveAction::LookupUser(id) => assert_eq!(id, 5),
        other => panic!("expected the user lookup, got {:?}", other),
    }
    let r = resolve_user_reply(&mut res, &presence, None);
    assert!(matches!(r, ResolveAction::NotFound));
}
