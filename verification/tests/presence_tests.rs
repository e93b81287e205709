use omega::presence::PresenceIndex;
use omega::status::ConnectionType;

#[test]
fn track_sets_first_replica_as_primary() {
    let mut p = PresenceIndex::new();
    p.track_iota_connection(1, 10, false);
    assert_eq!(p.get_iota_primary_omikron_connection(1), Some(10));
    assert_eq!(p.get_iota_omikron_connections(1), Some(vec![10]));
}

#[test]
fn track_keeps_existing_primary_unless_asked() {
    let mut p = PresenceIndex::new();
    p.track_iota_connection(1, 10, false);
    p.track_iota_connection(1, 11, false);
    assert_eq!(p.get_iota_primary_omikron_connection(1), Some(10));
    assert_eq!(p.get_iota_omikron_connections(1), Some(vec![10, 11]));
    p.track_iota_connection(1, 11, true);
    assert_eq!(p.get_iota_primary_omikron_connection(1), Some(11));
    assert_eq!(p.get_iota_omikron_connections(1), Some(vec![10, 11]));
}

#[test]
fn untrack_clears_primary_without_promoting() {
    let mut p = PresenceIndex::new();
    p.track_iota_connection(1, 10, true);
    p.track_iota_connection(1, 11, false);
    let empty = p.untrack_iota_connection(1, 10);
    assert!(!empty);
    assert_eq!(p.get_iota_primary_omikron_connection(1), None);
    assert_eq!(p.get_iota_omikron_connections(1), Some(vec![11]));
}

#[test]
fn untrack_last_replica_removes_the_iota() {
    let mut p = PresenceIndex::new();
    p.track_iota_connection(1, 10, true);
    let empty = p.untrack_iota_connection(1, 10);
    assert!(empty);
    assert_eq!(p.get_iota_primary_omikron_connection(1), None);
    assert_eq!(p.get_iota_omikron_connections(1), None);
}

#[test]
fn untrack_unknown_iota_reports_not_empty() {
    let mut p = PresenceIndex::new();
    assert!(!p.untrack_iota_connection(5, 10));
}

#[test]
fn user_status_upserts() {
    let mut p = PresenceIndex::new();
    p.track_user_status(200, ConnectionType::Online, 7);
    let c = p.get_user_status(200).unwrap();
    assert_eq!(c.connection_type, ConnectionType::Online);
    assert_eq!(c.omikron_id, 7);
    p.track_user_status(200, ConnectionType::Away, 8);
    let c = p.get_user_status(200).unwrap();
    assert_eq!(c.connection_type, ConnectionType::Away);
    assert_eq!(c.omikron_id, 8);
}

#[test]
fn untrack_many_users_removes_only_those() {
    let mut p = PresenceIndex::new();
    p.track_user_status(1, ConnectionType::Online, 7);
    p.track_user_status(2, ConnectionType::Online, 7);
    p.track_user_status(3, ConnectionType::Online, 8);
    p.untrack_many_users(&vec![1, 3]);
    assert!(p.get_user_status(1).is_none());
    assert!(p.get_user_status(2).is_some());
    assert!(p.get_user_status(3).is_none());
}

#[test]
fn purge_removes_every_reference_to_the_omikron() {
    let mut p = PresenceIndex::new();
    p.track_iota_connection(100, 7, true);
    p.track_iota_connection(101, 7, false);
    p.track_iota_connection(101, 8, false);
    p.track_user_status(200, ConnectionType::UserOffline, 7);
    p.track_user_status(300, ConnectionType::Online, 8);
    let emptied = p.untrack_omikron(7);
    assert_eq!(emptied, vec![100]);
    assert_eq!(p.get_iota_omikron_connections(100), None);
    assert_eq!(p.get_iota_primary_omikron_connection(100), None);
    assert_eq!(p.get_iota_omikron_connections(101), Some(vec![8]));
    assert!(p.get_user_status(200).is_none());
    assert!(p.get_user_status(300).is_some());
}

#[test]
fn purge_clears_primary_held_by_the_leaver() {
    let mut p = PresenceIndex::new();
    p.track_iota_connection(100, 7, true);
    p.track_iota_connection(100, 8, false);
    let emptied = p.untrack_omikron(7);
    assert!(emptied.is_empty());
    assert_eq!(p.get_iota_primary_omikron_connection(100), None);
    assert_eq!(p.get_iota_omikron_connections(100), Some(vec![8]));
}
