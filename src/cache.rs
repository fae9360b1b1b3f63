use vstd::prelude::*;

use crate::error::{deep_outcome, AttributeError, ErrorView};

verus! {

/// A value that can be copied without losing its model.
pub trait AttributeValue: Sized + DeepView {
    fn duplicate(&self) -> (r: Self)
        ensures
            r.deep_view() == self.deep_view(),
    ;
}

impl AttributeValue for String {
    fn duplicate(&self) -> (r: String) {
        self.clone()
    }
}

impl AttributeValue for i32 {
    fn duplicate(&self) -> (r: i32) {
        *self
    }
}

impl AttributeValue for Vec<String> {
    fn duplicate(&self) -> (r: Vec<String>) {
        let mut out: Vec<String> = Vec::new();
        let mut i: usize = 0;
        while i < self.len()
            invariant
                i <= self.len(),
                out.deep_view() == self.deep_view().subrange(0, i as int),
            decreases self.len() - i,
        {
            let ghost before = out.deep_view();
            out.push(self[i].clone());
            assert(out.deep_view() =~= before.push(self[i as int]@));
            assert(self.deep_view().subrange(0, i as int + 1) =~= self.deep_view().subrange(
                0,
                i as int,
            ).push(self[i as int]@));
            i = i + 1;
        }
        assert(self.deep_view().subrange(0, self.len() as int) =~= self.deep_view());
        out
    }
}

/// The cache after a computation that gave `r`: its value, or nothing after a failure.
pub open spec fn cache_after<V>(r: Result<V, ErrorView>) -> Option<V> {
    match r {
        Ok(v) => Some(v),
        Err(_) => None,
    }
}

/// A cache of one value: empty, or holding the value last read or computed.
#[derive(Debug)]
pub struct ValueCache<T> {
    value: Option<T>,
}

impl<T: DeepView> View for ValueCache<T> {
    type V = Option<T::V>;

    closed spec fn view(&self) -> Option<T::V> {
        self.value.deep_view()
    }
}

impl<T: AttributeValue> ValueCache<T> {
    /// An empty cache.
    pub fn new() -> (r: Self)
        ensures
            r@ is None,
    {
        ValueCache { value: None }
    }

    /// A copy of the cached value, if there is one.
    pub fn cached(&self) -> (r: Option<T>)
        ensures
            r.deep_view() == self@,
    {
        match &self.value {
            Some(v) => Some(v.duplicate()),
            None => None,
        }
    }

    /// Caches the value that a read gave; after a failure the cache is empty.
    pub fn remember(&mut self, r: &Result<T, AttributeError>)
        ensures
            final(self)@ == cache_after(deep_outcome(*r)),
    {
        match r {
            Ok(v) => {
                self.value = Some(v.duplicate());
            },
            Err(_) => {
                self.value = None;
            },
        }
    }

    /// Empties the cache.
    pub fn invalidate(&mut self)
        ensures
            final(self)@ is None,
    {
        self.value = None;
    }
}

} // verus!
