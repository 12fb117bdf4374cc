//! Typed keys for per-window properties.
//!
//! The Win32 backend attaches state to a native window under a named
//! property; the key carries the stored value's type so a lookup can
//! never confuse one property with another.  The calls that read and
//! write the native property table are the platform layer's; the key
//! itself is plain data.

use vstd::prelude::*;
use core::marker::PhantomData;

verus! {

/// A named, typed per-window property key.
pub struct WindowProp<'a, T> {
    key: &'a str,
    data: PhantomData<T>,
}

impl<'a, T> WindowProp<'a, T> {
    /// The property's name.
    pub closed spec fn key_spec(&self) -> Seq<char> {
        self.key@
    }

    /// A key for the property named `key`.
    pub fn new(key: &'a str) -> (p: Self)
        ensures
            p.key_spec() == key@,
    {
        WindowProp { key, data: PhantomData }
    }

    /// The property's name, as handed to the platform calls.
    pub fn key(&self) -> (k: &'a str)
        ensures
            k@ == self.key_spec(),
    {
        self.key
    }
}

} // verus!
