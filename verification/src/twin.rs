//! Copies that are equal by mathematical view.
use vstd::prelude::*;

verus! {

/// A value that can be duplicated without changing its view.
pub trait Twin: DeepView + Sized {
    /// A second value with the same view.
    fn twin(&self) -> (r: Self)
        ensures
            r.deep_view() == self.deep_view(),
    ;
}

impl Twin for bool {
    fn twin(&self) -> (r: Self) {
        *self
    }
}

impl Twin for u8 {
    fn twin(&self) -> (r: Self) {
        *self
    }
}

impl Twin for u16 {
    fn twin(&self) -> (r: Self) {
        *self
    }
}

impl Twin for u32 {
    fn twin(&self) -> (r: Self) {
        *self
    }
}

impl Twin for u64 {
    fn twin(&self) -> (r: Self) {
        *self
    }
}

impl Twin for u128 {
    fn twin(&self) -> (r: Self) {
        *self
    }
}

impl Twin for usize {
    fn twin(&self) -> (r: Self) {
        *self
    }
}

impl Twin for i32 {
    fn twin(&self) -> (r: Self) {
        *self
    }
}

impl Twin for i64 {
    fn twin(&self) -> (r: Self) {
        *self
    }
}

impl Twin for String {
    fn twin(&self) -> (r: Self) {
        self.clone()
    }
}

impl<T: Twin> Twin for Option<T> {
    fn twin(&self) -> (r: Self) {
        match self {
            Some(t) => Some(t.twin()),
            None => None,
        }
    }
}

impl<T: Twin> Twin for Box<T> {
    fn twin(&self) -> (r: Self) {
        Box::new((**self).twin())
    }
}

impl<T: Twin> Twin for Vec<T> {
    fn twin(&self) -> (r: Self) {
        let mut r: Vec<T> = Vec::new();
        let mut i: usize = 0;
        while i < self.len()
            invariant
                i <= self@.len(),
                r@.len() == i,
                forall|j: int| 0 <= j < i ==> (#[trigger] r@[j]).deep_view() == self@[j].deep_view(),
            decreases self@.len() - i,
        {
            r.push(self[i].twin());
            i = i + 1;
        }
        assert(r.deep_view() =~= self.deep_view());
        r
    }
}

impl<A: Twin, B: Twin> Twin for (A, B) {
    fn twin(&self) -> (r: Self) {
        (self.0.twin(), self.1.twin())
    }
}

/// A result by view.
pub open spec fn outcome<T: DeepView, E: DeepView>(r: Result<T, E>) -> Result<T::V, E::V> {
    match r {
        Ok(t) => Ok(t.deep_view()),
        Err(e) => Err(e.deep_view()),
    }
}

/// The first of two checks that fails, if any.
pub open spec fn both<E>(a: Result<(), E>, b: Result<(), E>) -> Result<(), E> {
    match a {
        Ok(_) => b,
        Err(e) => Err(e),
    }
}

/// Appending to a vector appends to its view.
pub broadcast proof fn lemma_push_view<T: DeepView>(v: Vec<T>, w: Vec<T>, t: T)
    requires
        #[trigger] v@.push(t) == w@,
    ensures
        #[trigger] w.deep_view() == v.deep_view().push(t.deep_view()),
{
    assert(w.deep_view() =~= v.deep_view().push(t.deep_view()));
}

/// The view of a byte vector is its bytes.
pub broadcast proof fn lemma_bytes_view(v: Vec<u8>)
    ensures
        #[trigger] v.deep_view() == v@,
{
    assert(v.deep_view() =~= v@);
}

} // verus!
