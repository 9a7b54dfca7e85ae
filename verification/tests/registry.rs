use zeevonk::connection::{ConnectionInformation, Registry};

#[test]
fn accept_hands_out_increasing_ids() {
    let mut registry = Registry::new();
    assert_eq!(registry.next_client_id(), 0);
    assert_eq!(registry.accept(), 0);
    assert_eq!(registry.accept(), 1);
    assert_eq!(registry.accept(), 2);
    assert_eq!(registry.next_client_id(), 3);
}

#[test]
fn open_count_follows_accepts_and_closes() {
    let mut registry = Registry::new();
    assert_eq!(registry.open_connections(), 0);
    registry.accept();
    registry.accept();
    assert_eq!(registry.open_connections(), 2);
    registry.close();
    assert_eq!(registry.open_connections(), 1);
    registry.accept();
    assert_eq!(registry.open_connections(), 2);
    registry.close();
    registry.close();
    assert_eq!(registry.open_connections(), 0);
}

#[test]
fn close_never_drives_the_count_below_zero() {
    let mut registry = Registry::new();
    registry.close();
    assert_eq!(registry.open_connections(), 0);
    registry.accept();
    registry.close();
    registry.close();
    assert_eq!(registry.open_connections(), 0);
}

#[test]
fn ids_are_not_reused_after_closes() {
    let mut registry = Registry::new();
    let first = registry.accept();
    registry.close();
    let second = registry.accept();
    assert_eq!(first, 0);
    assert_eq!(second, 1);
}

#[test]
fn snapshot_pairs_id_with_current_count() {
    let mut registry = Registry::new();
    let id = registry.accept();
    registry.accept();
    let info = registry.snapshot(id);
    assert_eq!(info.client_id, 0);
    assert_eq!(info.open_connections, 2);
}

#[test]
fn connection_information_new_keeps_its_fields() {
    let info = ConnectionInformation::new(7, 3);
    assert_eq!(info.client_id, 7);
    assert_eq!(info.open_connections, 3);
}
