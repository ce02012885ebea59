//! A lazily-populated slot holding `Option<Arc<T>>`.
//!
//! Three states: uninitialized, initialized with `None`, initialized with `Some(Arc<T>)`.
//! Multiple threads may race to compute the value; the loser drops what it computed and
//! observes the winner's value.
use std::sync::{Arc, OnceLock};

use vstd::prelude::*;

verus! {

#[verifier::external_type_specification]
#[verifier::external_body]
#[verifier::reject_recursive_types(T)]
pub struct ExOnceLock<T>(OnceLock<T>);

/// `OnceLock::new`: an empty cell.
#[verifier::external_body]
fn once_lock_new<T>() -> OnceLock<T> {
    OnceLock::new()
}

/// `OnceLock::get`: the value, once the cell is initialized.
#[verifier::external_body]
fn once_lock_get<T>(lock: &OnceLock<T>) -> Option<&T> {
    lock.get()
}

/// `OnceLock::set`: `Err(value)` hands the value back when the cell was already initialized.
#[verifier::external_body]
fn once_lock_set<T>(lock: &OnceLock<T>, value: T) -> (r: Result<(), T>)
    ensures
        r matches Err(v) ==> v == value,
{
    lock.set(value)
}

/// An atomic, lazily-populated slot holding `Option<Arc<T>>`.
#[verifier::reject_recursive_types(T)]
pub struct OnceArc<T> {
    inner: OnceLock<Option<Arc<T>>>,
}

fn clone_option_arc<T>(v: &Option<Arc<T>>) -> (r: Option<Arc<T>>)
    ensures
        r == *v,
{
    match v {
        Some(a) => Some(Arc::clone(a)),
        None => None,
    }
}

impl<T> OnceArc<T> {
    pub fn new() -> Self {
        Self { inner: once_lock_new() }
    }

    /// If this slot has already been populated, return its value (cloning any `Arc`).
    /// Otherwise call `f`, install its result, and return that. If a concurrent caller
    /// installs first, the winner's value is returned instead. An error of `f` is returned and
    /// leaves the slot uninitialized.
    pub fn get_or_try_init<F, E>(&self, f: F) -> (r: Result<Option<Arc<T>>, E>)
        where
            F: FnOnce() -> Result<Option<Arc<T>>, E>,
        requires
            f.requires(()),
        ensures
            r matches Err(e) ==> f.ensures((), Err(e)),
    {
        if let Some(v) = once_lock_get(&self.inner) {
            return Ok(clone_option_arc(v));
        }
        let computed = f()?;
        match once_lock_set(&self.inner, clone_option_arc(&computed)) {
            Ok(()) => Ok(computed),
            Err(_) => match once_lock_get(&self.inner) {
                Some(v) => Ok(clone_option_arc(v)),
                None => Ok(computed),
            },
        }
    }

    /// Whether the slot has been initialized yet (by either `Some` or `None`).
    pub fn is_initialized(&self) -> bool {
        once_lock_get(&self.inner).is_some()
    }

    /// Return the stored value without computing; an uninitialized slot reads as `None`.
    /// Intended for tests only.
    pub fn get(&self) -> Option<Arc<T>> {
        match once_lock_get(&self.inner) {
            Some(v) => clone_option_arc(v),
            None => None,
        }
    }
}

impl<T> Default for OnceArc<T> {
    fn default() -> Self {
        Self::new()
    }
}

} // verus!
