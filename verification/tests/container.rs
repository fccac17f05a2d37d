use capacity_report::vec::{growth_event, shrink_event, Vec};
use capacity_report::{Report, ReportEvent, Reportable};

#[test]
fn growth_event_is_exact() {
    assert_eq!(growth_event(3, 7), Some(ReportEvent::CapacityIncrease(3, 7)));
    assert_eq!(growth_event(0, 4), Some(ReportEvent::CapacityIncrease(0, 4)));
    assert_eq!(growth_event(7, 7), None);
    assert_eq!(growth_event(7, 3), None);
}

#[test]
fn shrink_event_is_exact() {
    assert_eq!(shrink_event(7, 0), Some(ReportEvent::CapacityDecrease(7, 0)));
    assert_eq!(shrink_event(7, 3), Some(ReportEvent::CapacityDecrease(7, 3)));
    assert_eq!(shrink_event(3, 3), None);
    assert_eq!(shrink_event(3, 7), None);
}

#[test]
fn push_records_measured_capacities() {
    let mut reg = Report::new();
    let mut v: Vec<u32> = Vec::new(&mut reg).with_name(&mut reg, "my_map");
    let mut expected = std::vec::Vec::new();
    for i in 0..4u32 {
        let before = v.capacity();
        let ev = v.push(&mut reg, i);
        let after = v.capacity();
        if after > before {
            // the event carries the true measured before/after capacity
            assert_eq!(ev, Some(ReportEvent::CapacityIncrease(before, after)));
            expected.push(ReportEvent::CapacityIncrease(before, after));
        } else {
            // no growth, no event
            assert_eq!(after, before);
            assert_eq!(ev, None);
        }
    }
    let snap = reg.get_snapshot(v.id());
    assert_eq!(snap.instance_name.as_str(), "my_map");
    assert_eq!(snap.events, expected);
    // a fresh vector starts with no capacity, so at least one growth happened
    assert!(!expected.is_empty());
    assert_eq!(v.len(), 4);
}

#[test]
fn instrumented_scenario_ends_with_one_decrease() {
    let mut reg = Report::new();
    let mut v: Vec<u32> = Vec::new(&mut reg).with_name(&mut reg, "my_map");
    for i in 0..4u32 {
        v.push(&mut reg, i);
    }
    for _ in 0..4 {
        assert!(v.pop().is_some());
    }
    assert!(v.pop().is_none());
    let growth_count = reg.get_snapshot(v.id()).events.len();
    let before = v.capacity();
    assert!(before > 0);
    let ev = v.shrink_to(&mut reg, 0);
    // the operation reads and then writes the same record without hanging,
    // and records exactly one decrease down to zero
    assert_eq!(ev, Some(ReportEvent::CapacityDecrease(before, 0)));
    assert_eq!(v.capacity(), 0);
    let snap = reg.get_snapshot(v.id());
    assert_eq!(snap.events.len(), growth_count + 1);
    assert_eq!(snap.events[growth_count], ReportEvent::CapacityDecrease(before, 0));
}

#[test]
fn push_with_headroom_records_nothing() {
    let mut reg = Report::new();
    let mut v: Vec<u8> = Vec::with_capacity(&mut reg, 10);
    assert!(v.capacity() >= 10);
    for i in 0..10u8 {
        if v.len() < v.capacity() {
            let ev = v.push(&mut reg, i);
            assert_eq!(ev, None);
        }
    }
    let snap = reg.get_snapshot(v.id());
    assert_eq!(snap.events, vec![ReportEvent::MaxCapacitySet(10)]);
}

#[test]
fn with_capacity_records_the_ceiling() {
    let mut reg = Report::new();
    let v: Vec<u64> = Vec::with_capacity(&mut reg, 16);
    let snap = reg.get_snapshot(v.id());
    assert_eq!(snap.max_capacity, Some(16));
    assert_eq!(snap.events, vec![ReportEvent::MaxCapacitySet(16)]);
    assert_eq!(v.len(), 0);
}

#[test]
fn set_max_capacity_appends_and_sets() {
    let mut reg = Report::new();
    let v: Vec<u8> = Vec::new(&mut reg);
    v.set_max_capacity(&mut reg, 3);
    let v = v.with_max_capacity(&mut reg, 5);
    let snap = reg.get_snapshot(v.id());
    assert_eq!(snap.max_capacity, Some(5));
    assert_eq!(
        snap.events,
        vec![ReportEvent::MaxCapacitySet(3), ReportEvent::MaxCapacitySet(5)]
    );
}

#[test]
fn pop_returns_items_in_reverse_order() {
    let mut reg = Report::new();
    let mut v: Vec<i32> = Vec::new(&mut reg);
    v.push(&mut reg, 1);
    v.push(&mut reg, 2);
    v.push(&mut reg, 3);
    assert_eq!(v.pop(), Some(3));
    assert_eq!(v.pop(), Some(2));
    assert_eq!(v.pop(), Some(1));
    assert_eq!(v.pop(), None);
}

#[test]
fn at_capacity_tracks_the_native_reservation() {
    let mut reg = Report::new();
    let mut v: Vec<u8> = Vec::new(&mut reg);
    // a fresh vector reserves nothing, so it is already full
    assert!(v.at_capacity());
    v.push(&mut reg, 1);
    while !v.at_capacity() {
        v.push(&mut reg, 0);
    }
    assert_eq!(v.len(), v.capacity());
}

#[test]
fn shrink_without_change_records_nothing() {
    let mut reg = Report::new();
    let mut v: Vec<u8> = Vec::new(&mut reg);
    v.push(&mut reg, 1);
    let cap = v.capacity();
    let ev = v.shrink_to(&mut reg, cap);
    assert_eq!(ev, None);
    let events = reg.get_snapshot(v.id()).events;
    assert!(events.iter().all(|e| !matches!(e, ReportEvent::CapacityDecrease(_, _))));
}

#[test]
fn renaming_is_idempotent() {
    let mut reg = Report::new();
    let v: Vec<u8> = Vec::new(&mut reg);
    v.set_name(&mut reg, "stats");
    v.set_name(&mut reg, "stats");
    let snap = reg.get_snapshot(v.id());
    assert_eq!(snap.instance_name.as_str(), "stats");
    assert!(snap.events.is_empty());
}

#[test]
fn two_containers_do_not_share_records() {
    let mut reg = Report::new();
    let mut a: Vec<u16> = Vec::new(&mut reg).with_name(&mut reg, "left");
    let mut b: Vec<u16> = Vec::new(&mut reg).with_name(&mut reg, "right");
    for i in 0..1000u16 {
        a.push(&mut reg, i);
        b.push(&mut reg, i);
    }
    // the same operations applied to a container alone
    let mut solo_reg = Report::new();
    let mut solo: Vec<u16> = Vec::new(&mut solo_reg).with_name(&mut solo_reg, "left");
    for i in 0..1000u16 {
        solo.push(&mut solo_reg, i);
    }
    let snap_a = reg.get_snapshot(a.id());
    let snap_solo = solo_reg.get_snapshot(solo.id());
    assert_eq!(snap_a.events, snap_solo.events);
    assert_eq!(a.capacity(), solo.capacity());
    assert_eq!(a.len(), solo.len());
    let snap_b = reg.get_snapshot(b.id());
    assert_eq!(snap_b.events, snap_solo.events);
}
