//! Values that must not move once pinned, and how they refer to themselves.
//!
//! A self reference here is a link that names a place inside the value that holds
//! it; it is resolved against that holder, so it reads the holder's own data
//! wherever the holder lives.
use vstd::prelude::*;
use std::marker::PhantomPinned;
use crate::types::PollState;

verus! {

#[verifier::external_type_specification]
#[verifier::external_body]
pub struct ExPhantomPinned(PhantomPinned);

/// The marker that keeps a type from being `Unpin`.
///
/// Builds `std::marker::PhantomPinned`, a zero-sized marker; nothing is claimed of it.
#[verifier::external_body]
fn pin_marker() -> PhantomPinned {
    PhantomPinned
}

}

verus! {

/// Where a self reference points inside the value that holds it.
#[derive(Clone, Copy, PartialEq, Eq, Structural, Debug)]
pub enum SelfLink {
    /// The holder itself.
    Holder,
    /// The holder's `value` field.
    ValueField,
}

/// A value that refers to itself once initialised; it is not `Unpin`.
#[derive(Debug)]
pub struct SelfReferential {
    data: i32,
    self_ref: Option<SelfLink>,
    _pin: PhantomPinned,
}

impl SelfReferential {
    pub closed spec fn spec_data(&self) -> i32 {
        self.data
    }

    pub closed spec fn spec_self_ref(&self) -> Option<SelfLink> {
        self.self_ref
    }

    /// A value holding `data`, with no self reference yet.
    pub fn new(data: i32) -> (r: Self)
        ensures
            r.spec_data() == data,
            r.spec_self_ref() is None,
    {
        SelfReferential { data, self_ref: None, _pin: pin_marker() }
    }

    /// Points the self reference at this value.
    pub fn init(&mut self)
        ensures
            final(self).spec_data() == old(self).spec_data(),
            final(self).spec_self_ref() == Some(SelfLink::Holder),
    {
        self.self_ref = Some(SelfLink::Holder);
    }

    pub fn get_data(&self) -> (r: i32)
        ensures
            r == self.spec_data(),
    {
        self.data
    }

    pub fn get_self_ref(&self) -> (r: Option<SelfLink>)
        ensures
            r == self.spec_self_ref(),
    {
        self.self_ref
    }

    /// The data read through the self reference: `None` before `init`, else this value's data.
    pub fn data_via_self_ref(&self) -> (r: Option<i32>)
        ensures
            r == (if self.spec_self_ref() is Some { Some(self.spec_data()) } else { None::<i32> }),
    {
        match self.self_ref {
            Some(_) => Some(self.data),
            None => None,
        }
    }
}

/// A future-like counter that counts up to `max`, one step per poll.
#[derive(Debug)]
pub struct SimpleFuture {
    pub count: i32,
    pub max: i32,
}

impl SimpleFuture {
    /// Below `max`, counts one more and answers `NotReady`; at `max` or above,
    /// answers the count.
    pub fn poll(&mut self) -> (r: PollState<i32>)
        ensures
            old(self).count < old(self).max ==> r is NotReady && final(self).count == old(self).count + 1,
            old(self).count >= old(self).max ==> r == PollState::Ready(old(self).count) && final(self).count == old(self).count,
            final(self).max == old(self).max,
    {
        if self.count < self.max {
            self.count = self.count + 1;
            PollState::NotReady
        } else {
            PollState::Ready(self.count)
        }
    }
}

/// A state machine whose state counts its steps; it is not `Unpin`.
pub struct AsyncStateMachine {
    state: i32,
    _pin: PhantomPinned,
}

impl AsyncStateMachine {
    pub closed spec fn spec_state(&self) -> i32 {
        self.state
    }

    /// A machine in state 0.
    pub fn new() -> (r: Self)
        ensures
            r.spec_state() == 0,
    {
        AsyncStateMachine { state: 0, _pin: pin_marker() }
    }

    /// Advances to the next state and returns it.
    pub fn step(&mut self) -> (r: i32)
        requires
            old(self).spec_state() < i32::MAX,
        ensures
            r == old(self).spec_state() + 1,
            final(self).spec_state() == r,
    {
        self.state = self.state + 1;
        self.state
    }

    pub fn state(&self) -> (r: i32)
        ensures
            r == self.spec_state(),
    {
        self.state
    }
}

/// A plain value that may move freely, pinned or not.
#[derive(Debug)]
pub struct UnpinType {
    value: i32,
}

impl UnpinType {
    pub closed spec fn spec_value(&self) -> i32 {
        self.value
    }

    pub fn new(value: i32) -> (r: Self)
        ensures
            r.spec_value() == value,
    {
        UnpinType { value }
    }

    pub fn set_value(&mut self, value: i32)
        ensures
            final(self).spec_value() == value,
    {
        self.value = value;
    }

    pub fn value(&self) -> (r: i32)
        ensures
            r == self.spec_value(),
    {
        self.value
    }
}

/// A value that points at its own `value` field once set; it is not `Unpin`.
#[derive(Debug)]
pub struct NotUnpinType {
    value: i32,
    self_ref: Option<SelfLink>,
    _pin: PhantomPinned,
}

impl NotUnpinType {
    pub closed spec fn spec_value(&self) -> i32 {
        self.value
    }

    pub closed spec fn spec_self_ref(&self) -> Option<SelfLink> {
        self.self_ref
    }

    /// A value holding `value`, with no self reference yet.
    pub fn new(value: i32) -> (r: Self)
        ensures
            r.spec_value() == value,
            r.spec_self_ref() is None,
    {
        NotUnpinType { value, self_ref: None, _pin: pin_marker() }
    }

    /// Sets the value and points the self reference at it.
    pub fn set_value(&mut self, value: i32)
        ensures
            final(self).spec_value() == value,
            final(self).spec_self_ref() == Some(SelfLink::ValueField),
    {
        self.value = value;
        self.self_ref = Some(SelfLink::ValueField);
    }

    pub fn get_self_ref(&self) -> (r: Option<SelfLink>)
        ensures
            r == self.spec_self_ref(),
    {
        self.self_ref
    }

    pub fn value(&self) -> (r: i32)
        ensures
            r == self.spec_value(),
    {
        self.value
    }

    /// Overwrites the value in place; the self reference is left as it is.
    pub fn set_field(&mut self, value: i32)
        ensures
            final(self).spec_value() == value,
            final(self).spec_self_ref() == old(self).spec_self_ref(),
    {
        self.value = value;
    }

    /// The value read through the self reference: `None` before `set_value`, else the current value.
    pub fn value_via_self_ref(&self) -> (r: Option<i32>)
        ensures
            r == (if self.spec_self_ref() is Some { Some(self.spec_value()) } else { None::<i32> }),
    {
        match self.self_ref {
            Some(_) => Some(self.value),
            None => None,
        }
    }
}

/// A future whose every poll adds one to its value and answers it; it is not `Unpin`.
pub struct MyFuture {
    value: i32,
    _pin: PhantomPinned,
}

impl MyFuture {
    pub closed spec fn spec_value(&self) -> i32 {
        self.value
    }

    pub fn new(value: i32) -> (r: Self)
        ensures
            r.spec_value() == value,
    {
        MyFuture { value, _pin: pin_marker() }
    }

    pub fn set_value(&mut self, value: i32)
        ensures
            final(self).spec_value() == value,
    {
        self.value = value;
    }

    /// Adds one to the value and answers the new value.
    pub fn poll(&mut self) -> (r: i32)
        requires
            old(self).spec_value() < i32::MAX,
        ensures
            r == old(self).spec_value() + 1,
            final(self).spec_value() == r,
    {
        self.value = self.value + 1;
        self.value
    }

    pub fn value(&self) -> (r: i32)
        ensures
            r == self.spec_value(),
    {
        self.value
    }
}

}
