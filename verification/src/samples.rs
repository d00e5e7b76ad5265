//! A small demonstration interface with three concrete types.
//!
//! These are payload types of the kind a narrow handle stores: two
//! zero-sized ones and one carrying a field.  Each answers the interface
//! call with its own value, stated as a contract, so tests can observe
//! that a handle constructed from one of them dispatches exactly as the
//! value itself does.

use vstd::prelude::*;

verus! {

/// The demonstration interface: one method answering a value that
/// identifies the implementation and its state.
pub trait T {
    /// What this implementation answers.
    spec fn f_spec(&self) -> usize;

    /// Answer the implementation's value.
    fn f(&self) -> (r: usize)
        ensures
            r == self.f_spec(),
    ;
}

/// A zero-sized payload answering 1.
pub struct S1;

impl T for S1 {
    open spec fn f_spec(&self) -> usize {
        1
    }

    fn f(&self) -> (r: usize) {
        1
    }
}

/// A zero-sized payload answering 2.
pub struct S2;

impl T for S2 {
    open spec fn f_spec(&self) -> usize {
        2
    }

    fn f(&self) -> (r: usize) {
        2
    }
}

/// A payload with state, answering its own field.
pub struct S3 {
    pub x: usize,
}

impl T for S3 {
    open spec fn f_spec(&self) -> usize {
        self.x
    }

    fn f(&self) -> (r: usize) {
        self.x
    }
}

} // verus!
