//! Closes the list of values that the tables hold.

use std::collections::VecDeque;
use vstd::prelude::*;

use crate::thunder::posts::{LightPost, TinyPost};

verus! {

/// A value that a table may hold. Nothing outside of `tables` can name this trait,
/// so no other type can be added.
pub trait Closed {

}

impl Closed for LightPost {

}

impl Closed for VecDeque<TinyPost> {

}

impl Closed for bool {

}

} // verus!
