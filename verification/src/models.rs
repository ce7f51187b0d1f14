//! Records that the station's web interfaces exchange.

use vstd::prelude::*;

verus! {

/// A message of the message interface.
#[derive(Debug)]
pub struct Message {
    pub id: u64,
    pub contents: String,
}

/// A property: a value stored under a path of the station's directory.
#[derive(Debug)]
pub struct Prop {
    pub path: String,
    pub value: String,
}

/// The Firebase setting of the web interface.
#[derive(Debug)]
pub struct Firebase {
    pub apikey: String,
}

} // verus!
