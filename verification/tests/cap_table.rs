use vain::cap_table::{CapTable, Capability};

#[test]
fn insert_get_revoke() {
    let mut t = CapTable::new();
    let h0 = t.insert(Capability::Endpoint(1));
    let h1 = t.insert(Capability::Notification(2));
    assert_eq!(h0, 0);
    assert_eq!(h1, 1);
    assert!(t.get(h0) == Some(Capability::Endpoint(1)));
    assert!(t.get(h1) == Some(Capability::Notification(2)));
    assert!(t.get(2).is_none());
    t.revoke(h0);
    assert!(t.get(h0).is_none());
    assert!(t.get(h1) == Some(Capability::Notification(2)));
}

#[test]
fn insert_reuses_lowest_revoked_slot() {
    let mut t = CapTable::new();
    for i in 0..4 {
        t.insert(Capability::Endpoint(i));
    }
    t.revoke(2);
    t.revoke(1);
    assert_eq!(t.insert(Capability::Notification(9)), 1);
    assert_eq!(t.insert(Capability::Notification(8)), 2);
    assert_eq!(t.insert(Capability::Notification(7)), 4);
}

#[test]
fn revoke_outside_table_is_ignored() {
    let mut t = CapTable::new();
    t.insert(Capability::Endpoint(5));
    t.revoke(17);
    assert!(t.get(0) == Some(Capability::Endpoint(5)));
    assert!(t.get(u64::MAX).is_none());
}

#[test]
fn a_held_slot_is_never_overwritten_until_revoked() {
    let mut t = CapTable::new();
    let a = t.insert(Capability::Endpoint(7));
    let b = t.insert(Capability::Endpoint(8));
    t.revoke(b);
    let c = t.insert(Capability::Notification(9));
    assert_eq!(c, b);
    let d = t.insert(Capability::Notification(10));
    assert_eq!(d, 2);
    assert!(t.get(a) == Some(Capability::Endpoint(7)));
    t.revoke(a);
    assert!(t.get(a).is_none());
}

#[test]
fn lookup_of_a_fresh_handle_gives_the_capability() {
    let mut t = CapTable::new();
    for i in 0..10u64 {
        let h = t.insert(Capability::Notification(i));
        assert!(t.get(h) == Some(Capability::Notification(i)));
    }
    t.revoke(4);
    let h = t.insert(Capability::Endpoint(40));
    assert_eq!(h, 4);
    assert!(t.get(3) == Some(Capability::Notification(3)));
}
