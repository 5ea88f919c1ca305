use accountable_refcell::{
    ref_filter_map, ref_mut_filter_map, AccessKind, BorrowData, BorrowError, BorrowMutError,
    Occupancy, Ref, RefCell, RefMut,
};

#[test]
fn take_refcell_returns_correct_value() {
    let mut c: RefCell<i32> = RefCell::new(5);
    assert_eq!(5, c.take());
    let g = c.borrow();
    assert_eq!(i32::default(), *c.read(&g));
    c.release(g);
}

#[test]
fn replace_refcell_properly_replaces_contents() {
    let mut c = RefCell::new(5);
    c.replace(12);
    let g = c.borrow();
    assert_eq!(12, *c.read(&g));
    c.release(g);
}

#[test]
fn replace_with_refcell_properly_replaces_contents() {
    let mut c = RefCell::new(5);
    c.replace_with(|old_value: &i32| *old_value + 1);
    let g = c.borrow();
    assert_eq!(6, *c.read(&g));
    c.release(g);
}

#[test]
fn two_shared_accesses_observe_value_and_block_exclusive() {
    let mut c = RefCell::new(5);
    let g1 = c.borrow();
    let g2 = c.borrow();
    assert_eq!(5, *c.read(&g1));
    assert_eq!(5, *c.read(&g2));
    assert_eq!(2, c.outstanding());
    assert!(c.try_borrow_mut().is_err());
    c.release(g1);
    assert!(c.try_borrow_mut().is_err());
    c.release(g2);
    let g = c.try_borrow_mut();
    assert!(g.is_ok());
    c.release_mut(g.unwrap());
}

#[test]
fn second_exclusive_access_is_refused() {
    let mut c = RefCell::new(5);
    let g = c.borrow_mut();
    assert_eq!(Err(BorrowMutError {}), c.try_borrow_mut().map(|_| ()));
    c.release_mut(g);
}

#[test]
fn shared_access_while_exclusive_is_refused_recoverably() {
    let mut c = RefCell::new(5);
    let g = c.borrow_mut();
    assert_eq!(Err(BorrowError {}), c.try_borrow().map(|_| ()));
    // the exclusive guard remains valid after the refused request
    assert_eq!(5, *c.read_mut(&g));
    c.write(&g, 6);
    assert_eq!(6, *c.read_mut(&g));
    c.release_mut(g);
}

#[test]
fn cloned_shared_guard_is_independent() {
    let mut c = RefCell::new(5);
    let g1 = c.borrow();
    let g2 = Ref::clone(&g1, &mut c);
    assert_eq!(5, *c.read(&g1));
    assert_eq!(5, *c.read(&g2));
    assert_eq!(2, c.outstanding());
    // dropping one does not invalidate the other
    c.release(g1);
    assert_eq!(5, *c.read(&g2));
    assert!(c.try_borrow_mut().is_err());
    c.release(g2);
    assert!(c.try_borrow_mut().is_ok());
}

#[test]
fn occupancy_follows_the_state_machine() {
    let mut c = RefCell::new(1u64);
    assert_eq!(Occupancy::Idle, c.occupancy());
    let g1 = c.borrow();
    assert_eq!(Occupancy::Shared(1), c.occupancy());
    let g2 = c.borrow();
    assert_eq!(Occupancy::Shared(2), c.occupancy());
    c.release(g1);
    assert_eq!(Occupancy::Shared(1), c.occupancy());
    c.release(g2);
    assert_eq!(Occupancy::Idle, c.occupancy());
    let g = c.borrow_mut();
    assert_eq!(Occupancy::Exclusive, c.occupancy());
    c.release_mut(g);
    assert_eq!(Occupancy::Idle, c.occupancy());
}

#[test]
fn replace_round_trip_restores_the_value() {
    let mut c = RefCell::new(5);
    let old = c.replace(41);
    assert_eq!(5, old);
    let taken = c.replace(old);
    assert_eq!(41, taken);
    let g = c.borrow();
    assert_eq!(5, *c.read(&g));
    c.release(g);
}

#[test]
fn take_then_replace_restores_prior_state() {
    let mut c = RefCell::new(5);
    let saved = c.take();
    assert_eq!(5, saved);
    c.replace(saved);
    let g = c.borrow();
    assert_eq!(5, *c.read(&g));
    c.release(g);
}

#[test]
fn into_inner_returns_the_value() {
    let c = RefCell::new(String::from("kept"));
    assert_eq!("kept", c.into_inner());
}

#[test]
fn default_cell_holds_default_value() {
    let mut c: RefCell<u32> = RefCell::default();
    assert_eq!(Occupancy::Idle, c.occupancy());
    assert_eq!(0, c.take());
}

#[test]
fn filter_map_accept_keeps_the_entry() {
    let mut c = RefCell::new(7);
    let g = c.borrow();
    let kept = ref_filter_map(&mut c, g, |v: &i32| *v > 0);
    assert!(kept.is_some());
    assert_eq!(1, c.outstanding());
    c.release(kept.unwrap());
    assert_eq!(0, c.outstanding());
}

#[test]
fn filter_map_decline_releases_the_entry() {
    let mut c = RefCell::new(-7);
    let g = c.borrow();
    let kept = ref_filter_map(&mut c, g, |v: &i32| *v > 0);
    assert!(kept.is_none());
    assert_eq!(0, c.outstanding());
    assert!(c.try_borrow_mut().is_ok());
}

#[test]
fn mut_filter_map_decline_leaves_the_cell_idle() {
    let mut c = RefCell::new(3);
    let g = c.borrow_mut();
    let kept = ref_mut_filter_map(&mut c, g, |v: &i32| *v > 10);
    assert!(kept.is_none());
    assert_eq!(Occupancy::Idle, c.occupancy());
    let g2 = c.borrow_mut();
    let kept2 = ref_mut_filter_map(&mut c, g2, |v: &i32| *v > 0);
    assert!(kept2.is_some());
    assert_eq!(Occupancy::Exclusive, c.occupancy());
    c.release_mut(kept2.unwrap());
}

#[test]
fn map_transfers_the_entry() {
    let mut c = RefCell::new(9);
    let g = c.borrow();
    let narrowed = Ref::map(g);
    assert_eq!(1, c.outstanding());
    c.release(narrowed);
    assert_eq!(0, c.outstanding());
    let g = c.borrow_mut();
    let narrowed = RefMut::map(g);
    assert_eq!(1, c.outstanding());
    c.release_mut(narrowed);
    assert_eq!(0, c.outstanding());
}

#[test]
fn swap_value_exchanges_contents() {
    let mut c = RefCell::new(1);
    let g = c.borrow_mut();
    let mut other = 2;
    c.swap_value(&g, &mut other);
    assert_eq!(1, other);
    assert_eq!(2, *c.read_mut(&g));
    c.release_mut(g);
}

#[test]
fn ledger_records_and_releases_ids_in_order() {
    let mut d = BorrowData::new();
    assert_eq!(0, d.counter_value());
    assert_eq!(Occupancy::Idle, d.occupancy());
    let a = d.record(AccessKind::Shared);
    let b = d.record(AccessKind::Shared);
    assert_eq!(0, a);
    assert_eq!(1, b);
    assert_eq!(2, d.outstanding());
    assert_eq!(Occupancy::Shared(2), d.occupancy());
    d.release(a);
    assert_eq!(1, d.outstanding());
    d.release(b);
    assert_eq!(Occupancy::Idle, d.occupancy());
    let e = d.record(AccessKind::Exclusive);
    assert_eq!(2, e);
    assert_eq!(Occupancy::Exclusive, d.occupancy());
    d.release(e);
    assert_eq!(3, d.counter_value());
}

#[test]
fn cloned_cell_is_fresh_and_holds_equal_value() {
    let mut c = RefCell::new(31);
    let g = c.borrow();
    let mut copy = c.clone_cell();
    assert_eq!(0, copy.outstanding());
    assert_eq!(Occupancy::Idle, copy.occupancy());
    let h = copy.borrow_mut();
    assert_eq!(31, *copy.read_mut(&h));
    copy.release_mut(h);
    c.release(g);
}

#[test]
fn cell_equality_compares_contained_values() {
    let a = RefCell::new(4);
    let b = RefCell::new(4);
    let d = RefCell::new(5);
    assert!(a.eq_cells(&b));
    assert!(!a.eq_cells(&d));
}

#[test]
fn replace_and_take_leave_no_outstanding_access() {
    let mut c = RefCell::new(2);
    c.replace(3);
    assert_eq!(0, c.outstanding());
    c.replace_with(|v: &i32| *v * 2);
    assert_eq!(0, c.outstanding());
    assert_eq!(6, c.take());
    assert_eq!(Occupancy::Idle, c.occupancy());
}

#[test]
fn capacity_is_reported() {
    let c = RefCell::new(0u8);
    assert!(c.has_capacity());
}

#[test]
fn snapshots_are_kept_per_access() {
    let mut c = RefCell::new(5);
    let g1 = c.borrow();
    let g2 = c.borrow();
    assert_eq!(2, c.outstanding());
    // each outstanding access carries its own captured snapshot
    let _first = c.snapshot(0);
    let _second = c.snapshot(1);
    c.release(g1);
    c.release(g2);
}
