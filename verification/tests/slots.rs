use browser_pool::slot::{exchange, Slot};

fn idle_value(slot: &Slot<u32>) -> Option<u32> {
    match slot {
        Slot::Idle(session) => Some(*session),
        _ => None,
    }
}

#[test]
fn exchange_writes_one_slot_and_returns_the_old_one() {
    let mut slots: Vec<Slot<u32>> = vec![Slot::Idle(1), Slot::Idle(2), Slot::Idle(3)];
    let previous = exchange(&mut slots, 1, Slot::CheckedOut);
    assert_eq!(idle_value(&previous), Some(2));
    assert_eq!(slots.len(), 3);
    assert_eq!(idle_value(&slots[0]), Some(1));
    assert!(matches!(slots[1], Slot::CheckedOut));
    assert_eq!(idle_value(&slots[2]), Some(3));
    let previous = exchange(&mut slots, 2, Slot::Empty);
    assert_eq!(idle_value(&previous), Some(3));
    assert!(matches!(slots[2], Slot::Empty));
    assert_eq!(slots.len(), 3);
}

#[test]
fn exchange_in_a_single_slot() {
    let mut slots: Vec<Slot<u32>> = vec![Slot::Empty];
    let previous = exchange(&mut slots, 0, Slot::Idle(4));
    assert!(matches!(previous, Slot::Empty));
    assert_eq!(slots.len(), 1);
    assert_eq!(idle_value(&slots[0]), Some(4));
}
