//! The types whose values can be written in a field: no other crate can add
//! one, as the trait below cannot be named from outside.

use crate::types::{Date, DateTime};
use crate::value::FieldValue;
use vstd::prelude::*;

verus! {

/// Implemented by the types of [`crate::value::WritableAsDbaseField`] only.
pub trait Sealed {}

impl Sealed for FieldValue {}

impl Sealed for String {}

impl<'s> Sealed for &'s str {}

impl Sealed for Option<String> {}

impl Sealed for bool {}

impl Sealed for Option<bool> {}

impl Sealed for Date {}

impl Sealed for Option<Date> {}

impl Sealed for i32 {}

impl Sealed for DateTime {}

} // verus!
