//! A small grab-bag of verified utilities: a keyed-collection-to-UI
//! reconciler with batched change notification, duration and date helpers,
//! a bounded queue, token freshness logic, and a few parsing helpers.

use vstd::prelude::*;

pub mod animation;
pub mod auth;
pub mod children_diff;
pub mod chrono_utils;
pub mod debug;
pub mod duration;
pub mod element_ext;
pub mod file_select;
pub mod limited_queue;
pub mod logger;
pub mod math;
pub mod response;
pub mod restyle;
pub mod rkyv_shims;
pub mod serde_utils;

verus! {

/// Shorthand for `T::default()`.
#[must_use]
pub fn default<T: Default>() -> T {
    T::default()
}

/// In-place boolean negation, as a method.
#[allow(non_camel_case_types)]
pub trait boolExt: Sized {
    /// What the value becomes when flipped.
    spec fn flipped(&self) -> Self;

    fn flip(&mut self)
        ensures
            *final(self) == old(self).flipped(),
    ;
}

impl boolExt for bool {
    open spec fn flipped(&self) -> bool {
        !*self
    }

    fn flip(&mut self) {
        *self = !*self;
    }
}

} // verus!
