//! Copies that are proved to have the model of the value they were made from.

use vstd::prelude::*;

verus! {

/// A value that can be copied in full: the copy has the model of the value
/// it was made from.
pub trait Duplicate: DeepView + Sized {
    fn duplicate(&self) -> (copy: Self)
        ensures
            copy.deep_view() == self.deep_view(),
    ;
}

impl Duplicate for String {
    fn duplicate(&self) -> (copy: String) {
        self.clone()
    }
}

impl<T: Duplicate> Duplicate for Option<T> {
    fn duplicate(&self) -> (copy: Option<T>) {
        match self {
            Some(value) => Some(value.duplicate()),
            None => None,
        }
    }
}

impl<T: Duplicate> Duplicate for Vec<T> {
    fn duplicate(&self) -> (copy: Vec<T>) {
        let mut copy: Vec<T> = Vec::new();
        let mut i: usize = 0;
        while i < self.len()
            invariant
                i <= self.len(),
                copy@.len() == i,
                forall|k: int| 0 <= k < i ==> copy@[k].deep_view() == self@[k].deep_view(),
            decreases self.len() - i,
        {
            let item = self[i].duplicate();
            copy.push(item);
            i = i + 1;
        }
        assert(copy.deep_view() =~= self.deep_view());
        copy
    }
}

} // verus!
