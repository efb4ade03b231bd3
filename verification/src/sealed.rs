//! Keeps the set of grammar policies closed.

use vstd::prelude::*;
use crate::policy::{Obsolete, Strict};

verus! {

pub trait Sealed {

}

impl Sealed for Strict {

}

impl Sealed for Obsolete {

}

} // verus!
