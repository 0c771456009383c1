//! The reader-writer lock of std, as the library hands it around.
use vstd::prelude::*;

verus! {

/// std's `RwLock`, opaque: what it holds is read and written by the runs of
/// a task, outside what the library states.
#[verifier::external_type_specification]
#[verifier::external_body]
#[verifier::reject_recursive_types(T)]
pub struct ExRwLock<T: ?Sized>(std::sync::RwLock<T>);

/// std's `RwLock::new`, which creates a new lock, unlocked, around the value;
/// nothing is stated of the lock, whose contents the library does not read.
pub assume_specification<T>[ std::sync::RwLock::<T>::new ](t: T) -> std::sync::RwLock<T>;

} // verus!
