use vstd::prelude::*;

verus! {

/// A slot that is filled at most once.
pub struct OnceSlot<T> {
    value: Option<T>,
}

impl<T> OnceSlot<T> {
    pub closed spec fn content(&self) -> Option<T> {
        self.value
    }

    /// An empty slot.
    pub fn new() -> (r: OnceSlot<T>)
        ensures
            r.content() is None,
    {
        OnceSlot { value: None }
    }

    /// The value, once the slot is filled.
    pub fn get(&self) -> (r: Option<&T>)
        ensures
            match self.content() {
                Some(v) => r is Some && *r->0 == v,
                None => r is None,
            },
    {
        match &self.value {
            Some(v) => Some(v),
            None => None,
        }
    }
}

/// Fills an empty slot with `value` and returns the stored value; a filled
/// slot keeps its value, which is returned together with `value` handed back.
pub fn once_lock_try_insert_polyfill<T>(this: &mut OnceSlot<T>, value: T) -> (r: Result<(), T>)
    ensures
        match old(this).content() {
            None => r is Ok && final(this).content() == Some(value),
            Some(existing) => r == Err::<(), T>(value) && final(this).content() == Some(existing),
        },
{
    match &this.value {
        Some(_) => Err(value),
        None => {
            this.value = Some(value);
            Ok(())
        },
    }
}

} // verus!
