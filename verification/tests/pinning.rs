use reactor_runtime::{
    AsyncStateMachine, MyFuture, NotUnpinType, PollState, SelfLink, SelfReferential, SimpleFuture,
    UnpinType,
};

#[test]
fn self_referential_reads_own_data_after_move() {
    let mut s = SelfReferential::new(42);
    assert_eq!(s.get_self_ref(), None);
    assert_eq!(s.data_via_self_ref(), None);
    s.init();
    let moved = Box::new(s);
    assert_eq!(moved.get_data(), 42);
    assert_eq!(moved.get_self_ref(), Some(SelfLink::Holder));
    assert_eq!(moved.data_via_self_ref(), Some(42));
}

#[test]
fn async_state_machine_counts_steps() {
    let mut m = AsyncStateMachine::new();
    assert_eq!(m.state(), 0);
    let states: Vec<i32> = (0..5).map(|_| m.step()).collect();
    assert_eq!(states, vec![1, 2, 3, 4, 5]);
}

#[test]
fn simple_future_counts_to_max() {
    let mut f = SimpleFuture { count: 0, max: 3 };
    for expected in 1..=3 {
        assert!(matches!(f.poll(), PollState::NotReady));
        assert_eq!(f.count, expected);
    }
    assert!(matches!(f.poll(), PollState::Ready(3)));
    assert!(matches!(f.poll(), PollState::Ready(3)));
}

#[test]
fn my_future_poll_adds_one() {
    let mut f = MyFuture::new(10);
    assert_eq!(f.value(), 10);
    f.set_value(20);
    assert_eq!(f.poll(), 21);
    assert_eq!(f.poll(), 22);
    let mut g = MyFuture::new(50);
    assert_eq!(g.poll(), 51);
}

#[test]
fn not_unpin_type_points_at_its_value() {
    let mut v = NotUnpinType::new(200);
    assert_eq!(v.get_self_ref(), None);
    v.set_value(300);
    assert_eq!(v.value(), 300);
    assert_eq!(v.get_self_ref(), Some(SelfLink::ValueField));
    v.set_field(200);
    assert_eq!(v.value_via_self_ref(), Some(200));
    v.set_value(888);
    assert_eq!(v.value_via_self_ref(), Some(888));
}

#[test]
fn unpin_type_set_value() {
    let mut u = UnpinType::new(42);
    u.set_value(999);
    assert_eq!(u.value(), 999);
}
