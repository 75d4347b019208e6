//! A read-only container that avoids an allocation for a single element.
//!
//! Routing produces the list of channel positions interested in an event;
//! almost always that list has exactly one element.

use vstd::prelude::*;

verus! {

/// A read-only sequence with an inline slot for the single-element case.
#[derive(Debug, Clone)]
pub enum Values<T> {
    One([T; 1]),
    Many(Vec<T>),
}

impl<T> View for Values<T> {
    type V = Seq<T>;

    open spec fn view(&self) -> Seq<T> {
        match self {
            Values::One(a) => a@,
            Values::Many(v) => v@,
        }
    }
}

impl<T> Values<T> {
    /// Build from a vector, keeping a single element inline.
    pub fn from_vec(v: Vec<T>) -> (r: Self)
        ensures
            r@ == v@,
    {
        if v.len() == 1 {
            let mut v = v;
            let x = v.pop().unwrap();
            let r = Values::One([x]);
            proof {
                assert(r@ =~= v@.push(x));
            }
            r
        } else {
            Values::Many(v)
        }
    }

    /// True when no element is held.
    pub fn is_empty(&self) -> (r: bool)
        ensures
            r == (self@.len() == 0),
    {
        match self {
            Values::One(_) => false,
            Values::Many(v) => v.len() == 0,
        }
    }

    /// All elements, as a slice.
    pub fn as_slice(&self) -> (r: &[T])
        ensures
            r@ == self@,
    {
        match self {
            Values::One(a) => a.as_slice(),
            Values::Many(v) => v.as_slice(),
        }
    }
}

impl<T> Default for Values<T> {
    /// The empty container.
    fn default() -> (r: Self)
        ensures
            r@ == Seq::<T>::empty(),
    {
        let r = Values::Many(Vec::new());
        proof {
            assert(r@ =~= Seq::<T>::empty());
        }
        r
    }
}

} // verus!
