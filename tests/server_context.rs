use windows_rpc::{clear_context, set_context, with_context, ContextError, ContextSlot};

#[test]
fn second_registration_is_rejected() {
    let mut slot: ContextSlot<u32> = ContextSlot::new();
    assert!(!slot.is_active());
    assert_eq!(set_context(&mut slot, 1), Ok(()));
    assert_eq!(set_context(&mut slot, 2), Err(ContextError::AlreadyActive));
    assert_eq!(slot.current(), Some(&1));
}

#[test]
fn cleared_slot_accepts_a_new_context() {
    let mut slot: ContextSlot<&str> = ContextSlot::new();
    set_context(&mut slot, "first").unwrap();
    clear_context(&mut slot);
    assert!(!slot.is_active());
    assert_eq!(slot.current(), None);
    assert_eq!(set_context(&mut slot, "second"), Ok(()));
    assert_eq!(slot.current(), Some(&"second"));
}

#[test]
fn calls_reach_the_active_context() {
    let mut slot: ContextSlot<i32> = ContextSlot::new();
    assert_eq!(with_context(&slot, |v: &i32| *v + 4), Err(ContextError::NoContext));
    set_context(&mut slot, 10).unwrap();
    assert_eq!(with_context(&slot, |v: &i32| *v + 4), Ok(14));
    assert_eq!(with_context(&slot, |v: &i32| *v + 20), Ok(30));
}
