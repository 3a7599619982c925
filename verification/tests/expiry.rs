use firewall::admission::Firewall;
use firewall::record::ClientRecord;
use firewall::verdict::Verdict;

#[test]
fn expiry_removes_the_record_whatever_it_holds() {
    let mut fw = Firewall::new(5, 1_000);
    fw.allow(1, 10);
    fw.allow(1, 20);
    fw.expire(1);
    assert_eq!(fw.record(1), None);

    let mut fw = Firewall::new(0, 1_000);
    fw.allow(1, 10);
    fw.allow(1, 20);
    assert_eq!(fw.record(1), Some(ClientRecord { client: 1, count: 2, banned_until: Some(1_010) }));
    fw.expire(1);
    assert_eq!(fw.record(1), None);
}

#[test]
fn expiry_twice_leaves_no_record() {
    let mut fw = Firewall::new(1, 1_000);
    fw.allow(8, 1);
    fw.allow(8, 2);
    fw.allow(9, 3);
    fw.expire(8);
    fw.expire(8);
    assert_eq!(fw.record(8), None);
    assert_eq!(fw.record(9), Some(ClientRecord { client: 9, count: 1, banned_until: None }));
}

#[test]
fn expiry_of_unknown_client_changes_nothing() {
    let mut fw = Firewall::new(1, 1_000);
    fw.expire(4);
    assert_eq!(fw.record(4), None);
    fw.allow(5, 1);
    fw.expire(4);
    assert_eq!(fw.record(5), Some(ClientRecord { client: 5, count: 1, banned_until: None }));
}

#[test]
fn request_after_expiry_is_the_first_of_a_new_record() {
    let mut fw = Firewall::new(2, 60_000);
    for now in 0..6u64 {
        fw.allow(11, now);
    }
    assert_eq!(
        fw.record(11),
        Some(ClientRecord { client: 11, count: 6, banned_until: Some(60_002) })
    );
    fw.expire(11);
    let decision = fw.allow(11, 60_002);
    assert_eq!(decision.verdict, Verdict::Allowed);
    assert_eq!(decision.expire_after, None);
    assert_eq!(fw.record(11), Some(ClientRecord { client: 11, count: 1, banned_until: None }));
}

#[test]
fn request_after_expiry_is_denied_when_threshold_is_zero() {
    let mut fw = Firewall::new(0, 10);
    fw.allow(11, 1);
    fw.expire(11);
    let decision = fw.allow(11, 50);
    assert_eq!(decision.verdict, Verdict::Denied);
    assert_eq!(decision.expire_after, Some(10));
    assert_eq!(fw.record(11), Some(ClientRecord { client: 11, count: 1, banned_until: Some(60) }));
}

#[test]
fn every_denial_asks_for_one_expiry() {
    let mut fw = Firewall::new(1, 250);
    let mut armed = 0;
    for now in 0..10u64 {
        if let Some(delay) = fw.allow(6, now).expire_after {
            assert_eq!(delay, 250);
            armed += 1;
        }
    }
    assert_eq!(armed, 9);
}

#[test]
fn late_expiry_removes_the_record_of_a_new_run() {
    let mut fw = Firewall::new(1, 100);
    fw.allow(3, 0);
    fw.allow(3, 10);
    fw.allow(3, 20);
    fw.expire(3);
    fw.allow(3, 115);
    assert_eq!(fw.record(3), Some(ClientRecord { client: 3, count: 1, banned_until: None }));
    fw.expire(3);
    assert_eq!(fw.record(3), None);
}
