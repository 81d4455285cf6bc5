use tetra_bluestation::counters::{slot_index, RxGainDecodeCounters};
use tetra_bluestation::registry::SubscriberRegistry;

#[test]
fn test_register_deregister() {
    let mut reg = SubscriberRegistry::new();
    assert!(!reg.is_registered(1001));
    reg.register(1001);
    assert!(reg.is_registered(1001));
    reg.deregister(1001);
    assert!(!reg.is_registered(1001));
}

#[test]
fn test_affiliate_deaffiliate() {
    let mut reg = SubscriberRegistry::new();
    reg.register(1001);
    reg.affiliate(1001, 91);
    assert!(reg.has_group_members(91));
    reg.deaffiliate(1001, 91);
    assert!(!reg.has_group_members(91));
}

#[test]
fn test_has_group_members() {
    let mut reg = SubscriberRegistry::new();
    reg.register(1001);
    reg.register(1002);
    reg.register(1003);
    reg.affiliate(1001, 100);
    reg.affiliate(1002, 100);
    reg.affiliate(1003, 100);
    assert!(reg.has_group_members(100));

    // Deaffiliate one, should still have members
    reg.deaffiliate(1001, 100);
    assert!(reg.has_group_members(100));

    // Deregister a user, should still have members
    reg.deregister(1002);
    assert!(reg.has_group_members(100));

    // Deregister last user, should have no members
    reg.deregister(1003);
    assert!(!reg.has_group_members(100));
}

#[test]
fn test_has_group_members_empty() {
    let reg = SubscriberRegistry::new();
    assert!(!reg.has_group_members(999));
}

#[test]
fn test_register_overwrites_existing_subscriber() {
    let mut reg = SubscriberRegistry::new();
    reg.register(1001);
    reg.affiliate(1001, 91);
    assert!(reg.has_group_members(91));

    reg.register(1001);

    assert!(reg.is_registered(1001));
    reg.deaffiliate(1001, 91);
    assert!(!reg.has_group_members(91));
}

#[test]
fn affiliate_enters_unregistered_issi() {
    let mut reg = SubscriberRegistry::new();
    reg.affiliate(2001, 7);
    assert!(reg.is_registered(2001));
    assert!(reg.has_group_members(7));
    assert!(reg.get_subscriber_mut(2001).attached_groups.contains(&7));
}

#[test]
fn deaffiliate_enters_unregistered_issi_without_groups() {
    let mut reg = SubscriberRegistry::new();
    reg.deaffiliate(3001, 5);
    assert!(reg.is_registered(3001));
    assert!(!reg.has_group_members(5));
    assert_eq!(reg.get_subscriber_mut(3001).issi, 3001);
    assert!(reg.get_subscriber_mut(3001).attached_groups.is_empty());
}

#[test]
fn deregister_unknown_issi_changes_nothing() {
    let mut reg = SubscriberRegistry::new();
    reg.register(1);
    reg.affiliate(1, 9);
    reg.deregister(42);
    assert!(reg.is_registered(1));
    assert!(reg.has_group_members(9));
}

#[test]
fn deregister_keeps_groups_shared_with_others() {
    let mut reg = SubscriberRegistry::new();
    reg.affiliate(1, 9);
    reg.affiliate(1, 10);
    reg.affiliate(2, 9);
    reg.deregister(1);
    assert!(reg.has_group_members(9));
    assert!(!reg.has_group_members(10));
}

#[test]
fn clone_keeps_members_and_groups() {
    let mut reg = SubscriberRegistry::new();
    reg.affiliate(1, 9);
    reg.affiliate(2, 10);
    let mut copy = reg.clone();
    assert!(copy.is_registered(1));
    assert!(copy.is_registered(2));
    assert!(copy.has_group_members(9));
    assert!(copy.has_group_members(10));
    copy.deregister(1);
    assert!(!copy.has_group_members(9));
    assert!(reg.has_group_members(9));
}

#[test]
fn counters_record_and_saturate() {
    let mut c = RxGainDecodeCounters::default();
    c.record(2, true, true, true);
    c.record(2, true, false, false);
    c.record(9, false, true, true);
    c.record(0, true, true, false);
    assert_eq!(c.decode_attempted, 3);
    assert_eq!(c.decode_success, 2);
    assert_eq!(c.false_positive, 1);
    assert_eq!(c.crc_ok, 1);
    assert_eq!(c.slot_attempted, [1, 2, 0, 0]);
    assert_eq!(c.slot_crc_ok, [0, 1, 0, 0]);

    let mut m = RxGainDecodeCounters::default();
    m.decode_attempted = u64::MAX;
    m.slot_attempted[3] = u64::MAX;
    m.record(200, true, true, false);
    assert_eq!(m.decode_attempted, u64::MAX);
    assert_eq!(m.slot_attempted[3], u64::MAX);
}

#[test]
fn counters_diff_saturates_at_zero() {
    let mut a = RxGainDecodeCounters::default();
    a.decode_attempted = 10;
    a.crc_ok = 4;
    a.slot_attempted = [5, 1, 0, 7];
    let mut b = RxGainDecodeCounters::default();
    b.decode_attempted = 3;
    b.crc_ok = 9;
    b.slot_attempted = [2, 4, 0, 7];
    let d = a.diff_from(&b);
    assert_eq!(d.decode_attempted, 7);
    assert_eq!(d.crc_ok, 0);
    assert_eq!(d.slot_attempted, [3, 0, 0, 0]);
}

#[test]
fn slot_index_maps_timeslots() {
    assert_eq!(slot_index(0), 0);
    assert_eq!(slot_index(1), 0);
    assert_eq!(slot_index(2), 1);
    assert_eq!(slot_index(4), 3);
    assert_eq!(slot_index(5), 3);
    assert_eq!(slot_index(255), 3);
}

#[test]
fn one_recorded_decode_is_the_whole_difference() {
    let mut before = RxGainDecodeCounters::default();
    before.decode_attempted = 40;
    before.decode_success = 30;
    before.false_positive = 10;
    before.crc_ok = 25;
    before.slot_attempted = [10, 10, 10, 10];
    before.slot_crc_ok = [5, 5, 5, 5];
    let mut after = before;
    after.record(3, true, true, true);
    let d = after.diff_from(&before);
    assert_eq!(d.decode_attempted, 1);
    assert_eq!(d.decode_success, 1);
    assert_eq!(d.false_positive, 0);
    assert_eq!(d.crc_ok, 1);
    assert_eq!(d.slot_attempted, [0, 0, 1, 0]);
    assert_eq!(d.slot_crc_ok, [0, 0, 1, 0]);

    let same = after.diff_from(&after);
    assert_eq!(same.decode_attempted, 0);
    assert_eq!(same.decode_success, 0);
    assert_eq!(same.false_positive, 0);
    assert_eq!(same.crc_ok, 0);
    assert_eq!(same.slot_attempted, [0, 0, 0, 0]);
    assert_eq!(same.slot_crc_ok, [0, 0, 0, 0]);
}

#[test]
fn recorded_counters_stay_consistent() {
    let mut c = RxGainDecodeCounters::default();
    let calls = [(1u8, true, true, true), (2, true, false, false), (4, false, true, true), (9, true, true, false), (0, true, false, true)];
    for (ts, a, s, crc) in calls {
        c.record(ts, a, s, crc);
    }
    assert_eq!(c.decode_attempted, 4);
    assert_eq!(c.decode_attempted, c.decode_success + c.false_positive);
    assert!(c.crc_ok <= c.decode_attempted);
    assert_eq!(c.slot_attempted.iter().sum::<u64>(), c.decode_attempted);
    assert_eq!(c.slot_crc_ok.iter().sum::<u64>(), c.crc_ok);
    for i in 0..4 {
        assert!(c.slot_crc_ok[i] <= c.slot_attempted[i]);
    }
}

#[test]
fn diff_since_snapshot_counts_later_records_only() {
    let mut c = RxGainDecodeCounters::default();
    c.record(1, true, true, true);
    c.record(3, true, false, false);
    let snapshot = c;
    let later = [(2u8, true, true, true), (4, true, true, false)];
    let mut fresh = RxGainDecodeCounters::default();
    for (ts, a, s, crc) in later {
        c.record(ts, a, s, crc);
        fresh.record(ts, a, s, crc);
    }
    let d = c.diff_from(&snapshot);
    assert_eq!(d.decode_attempted, fresh.decode_attempted);
    assert_eq!(d.decode_success, fresh.decode_success);
    assert_eq!(d.false_positive, fresh.false_positive);
    assert_eq!(d.crc_ok, fresh.crc_ok);
    assert_eq!(d.slot_attempted, fresh.slot_attempted);
    assert_eq!(d.slot_crc_ok, fresh.slot_crc_ok);
    let back = snapshot.diff_from(&c);
    assert_eq!(back.decode_attempted, 0);
    assert_eq!(back.slot_attempted, [0, 0, 0, 0]);
    let ident = c.diff_from(&RxGainDecodeCounters::default());
    assert_eq!(ident.decode_attempted, c.decode_attempted);
    assert_eq!(ident.slot_crc_ok, c.slot_crc_ok);
}

#[test]
fn registration_follows_the_last_call_naming_an_issi() {
    let mut reg = SubscriberRegistry::new();
    reg.register(1);
    reg.affiliate(2, 9);
    reg.deregister(1);
    reg.deaffiliate(3, 9);
    assert!(!reg.is_registered(1));
    assert!(reg.is_registered(2));
    assert!(reg.is_registered(3));
    assert!(reg.has_group_members(9));
    reg.deregister(2);
    assert!(!reg.has_group_members(9));
    reg.get_subscriber_mut(1);
    assert!(reg.is_registered(1));
}
