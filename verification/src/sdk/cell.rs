//! Storage for a plugin instance.

use vstd::prelude::*;

verus! {

/// A cell that holds a plugin instance, made on first use.
pub struct WasmPluginCell<T> {
    value: Option<T>,
}

impl<T> WasmPluginCell<T> {
    /// The instance, where it has been made.
    pub closed spec fn instance(self) -> Option<T> {
        self.value
    }
}

impl<T: Default> WasmPluginCell<T> {
    /// A cell without an instance.
    pub fn new() -> (r: Self)
        ensures
            r.instance() is None,
    {
        WasmPluginCell { value: None }
    }

    /// Hands out the instance, which is `T::default()` on first use. What is
    /// done to it stays in the cell.
    pub fn borrow_mut(&mut self) -> (r: &mut T)
        ensures
            match old(self).instance() {
                Some(v) => *r == v,
                None => call_ensures(T::default, (), *r),
            },
            final(self).instance() == Some(*final(r)),
    {
        if self.value.is_none() {
            self.value = Some(T::default());
        }
        self.value.as_mut().unwrap()
    }
}

} // verus!
