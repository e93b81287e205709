use omega::register::RegisterAllocator;

#[test]
fn ids_follow_the_clock_when_it_advances() {
    let mut a = RegisterAllocator::new();
    assert_eq!(a.next_register_id(1000), 1000);
    assert_eq!(a.next_register_id(2000), 2000);
}

#[test]
fn ids_advance_by_one_within_a_millisecond() {
    let mut a = RegisterAllocator::new();
    assert_eq!(a.next_register_id(1000), 1000);
    assert_eq!(a.next_register_id(1000), 1001);
    assert_eq!(a.next_register_id(999), 1002);
}

#[test]
fn a_thousand_ids_are_distinct_and_increasing() {
    let mut a = RegisterAllocator::new();
    let mut ids = Vec::new();
    for i in 0..1000u64 {
        ids.push(a.next_register_id(5000 + i / 10));
    }
    for w in ids.windows(2) {
        assert!(w[1] > w[0]);
    }
    for (i, id) in ids.iter().enumerate() {
        assert!(*id >= 5000 + (i as u64) / 10);
    }
}

#[test]
fn wall_clock_ids_increase() {
    let mut a = RegisterAllocator::new();
    let first = a.get_register_id();
    let second = a.get_register_id();
    assert!(second > first);
}
