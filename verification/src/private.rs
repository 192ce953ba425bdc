//! What keeps the set of element types closed.

use vstd::prelude::*;
use crate::convert::{Binary32, Binary64};

verus! {

/// Only the types of this library can have [`crate::FromHdf5`].
pub trait Sealed {

}

impl Sealed for i32 {

}

impl Sealed for i64 {

}

impl Sealed for Binary32 {

}

impl Sealed for Binary64 {

}

impl Sealed for bool {

}

impl Sealed for String {

}

} // verus!
