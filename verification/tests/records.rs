use firewall::admission::Firewall;
use firewall::record::{ban_deadline, ClientRecord};

#[test]
fn fresh_record_has_counted_nothing() {
    assert_eq!(ClientRecord::fresh(17), ClientRecord { client: 17, count: 0, banned_until: None });
}

#[test]
fn bump_adds_one_and_bans_at_the_breach() {
    let r0 = ClientRecord::fresh(1);
    let r1 = r0.bump(2, 500);
    assert_eq!(r1, ClientRecord { client: 1, count: 1, banned_until: None });
    let r2 = r1.bump(2, 600);
    assert_eq!(r2, ClientRecord { client: 1, count: 2, banned_until: None });
    let r3 = r2.bump(2, 700);
    assert_eq!(r3, ClientRecord { client: 1, count: 3, banned_until: Some(700) });
    let r4 = r3.bump(2, 800);
    assert_eq!(r4, ClientRecord { client: 1, count: 4, banned_until: Some(700) });
}

#[test]
fn breaches_compares_the_next_count_with_the_threshold() {
    let at = |count: u64| ClientRecord { client: 0, count, banned_until: None };
    assert!(!at(0).breaches(1));
    assert!(at(1).breaches(1));
    assert!(at(0).breaches(0));
    assert!(!at(9).breaches(10));
    assert!(at(10).breaches(10));
    assert!(at(11).breaches(10));
    assert!(!at(u64::MAX - 1).breaches(u64::MAX));
    assert!(at(u64::MAX).breaches(u64::MAX));
}

#[test]
fn count_stops_at_the_largest_value() {
    let full = ClientRecord { client: 2, count: u64::MAX, banned_until: Some(9) };
    assert_eq!(full.bump(5, 100), full);

    let last = ClientRecord { client: 2, count: u64::MAX - 1, banned_until: None };
    let reached = last.bump(u64::MAX, 100);
    assert_eq!(reached, ClientRecord { client: 2, count: u64::MAX, banned_until: None });
    let over = reached.bump(u64::MAX, 200);
    assert_eq!(over, ClientRecord { client: 2, count: u64::MAX, banned_until: Some(200) });
}

#[test]
fn ban_deadline_adds_the_duration() {
    assert_eq!(ban_deadline(0, 0), 0);
    assert_eq!(ban_deadline(1_000, 60_000), 61_000);
    assert_eq!(ban_deadline(u64::MAX - 10, 10), u64::MAX);
}

#[test]
fn ban_deadline_stops_at_the_end_of_the_clock() {
    assert_eq!(ban_deadline(u64::MAX - 5, 10), u64::MAX);
    assert_eq!(ban_deadline(u64::MAX, u64::MAX), u64::MAX);
    let mut fw = Firewall::new(0, 10);
    fw.allow(1, u64::MAX - 5);
    assert_eq!(
        fw.record(1),
        Some(ClientRecord { client: 1, count: 1, banned_until: Some(u64::MAX) })
    );
}
