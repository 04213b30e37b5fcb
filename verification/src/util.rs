//! Putting a payload into the `custom` slot of a message and taking it out.

use crate::protocol::{Any, AnyView};
use vstd::prelude::*;

verus! {

/// The payload of `any`.
pub fn unpack<T: View>(any: Any<T>) -> (value: T)
    ensures
        value@ == any@.value,
{
    any.value
}

/// The payload `msg` under the type name `type_url`.
pub fn pack<T: View>(msg: T, type_url: String) -> (any: Any<T>)
    ensures
        any@ == (AnyView { type_url: type_url@, value: msg@ }),
{
    Any { type_url, value: msg }
}

} // verus!
