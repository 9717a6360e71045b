//! The versioned event stream, in the style of mjai. Four-player and three-player games have
//! separate event enums; the settlement details are shared.

use vstd::prelude::*;

pub mod compat3p;
pub mod event3p;
pub mod matchlog;
pub mod event4p;
pub mod same;
pub mod scoring;

verus! {

/// Version of the event stream. It goes up whenever the shape of an event enum changes.
pub const PROTOCOL_VERSION: u32 = 2;

} // verus!
