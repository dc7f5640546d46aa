//! A ready-made subject shape, and the marker that subjects carry.
use vstd::prelude::*;

verus! {

/// A subject with the generation it was born in.
#[derive(Debug, Clone)]
pub struct Subject<T: Clone> {
    pub generation_born: u32,
    pub data: T,
}

/// Marks a type as a candidate solution that the engine can evolve.
pub trait GaSubject {
}

} // verus!
