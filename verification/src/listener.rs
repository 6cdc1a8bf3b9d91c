//! Handles for the callbacks that received packets are delivered to.

use vstd::prelude::*;

verus! {

/// Names one registered listener. The stack decides which listener a packet
/// goes to; the owner of the callbacks invokes it.
#[derive(Clone, Copy, Debug, PartialEq, Eq, Structural, Hash)]
pub struct ListenerId(pub u64);

} // verus!
