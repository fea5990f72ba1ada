//! A vector behind a shared pointer: cheap to clone, never changed.

use std::sync::Arc;
use vstd::prelude::*;

verus! {

/// A shared, unchanging vector.
#[derive(Debug)]
pub struct ArcVec<T> {
    inner: Arc<Vec<T>>,
}

impl<T> View for ArcVec<T> {
    type V = Seq<T>;

    closed spec fn view(&self) -> Seq<T> {
        self.inner@
    }
}

impl<T> Clone for ArcVec<T> {
    /// Another handle on the same elements.
    fn clone(&self) -> (res: ArcVec<T>)
        ensures
            res@ == self@,
    {
        ArcVec { inner: self.inner.clone() }
    }
}

impl<T> Default for ArcVec<T> {
    /// The empty vector.
    fn default() -> (res: ArcVec<T>)
        ensures
            res@.len() == 0,
    {
        ArcVec { inner: Arc::new(Vec::new()) }
    }
}

impl<T> ArcVec<T> {
    /// The vector with the elements of `value`.
    pub fn from(value: Vec<T>) -> (res: ArcVec<T>)
        ensures
            res@ == value@,
    {
        ArcVec { inner: Arc::new(value) }
    }

    /// The number of elements.
    pub fn length(&self) -> (len: Option<usize>)
        ensures
            len == Some(self@.len() as usize),
            self@.len() <= usize::MAX,
    {
        Some(self.inner.len())
    }

    /// The elements.
    pub fn as_ref(&self) -> (res: &[T])
        ensures
            res@ == self@,
    {
        self.inner.as_slice()
    }
}

} // verus!
