//! Engine core: the in-memory game world (entities, areas, player, combat,
//! farming).  Nothing in this layer touches the file system.

pub mod area;
pub mod combat;
pub mod entity;
pub mod farming;
pub mod world;

pub use crate::player;

use std::time::{SystemTime, UNIX_EPOCH};
use vstd::prelude::*;

verus! {

/// `std::time::SystemTime`, a reading of the wall clock.
#[verifier::external_type_specification]
#[verifier::external_body]
pub struct ExSystemTime(SystemTime);

/// `SystemTime::now()`: a reading of the wall clock.  Nothing is promised
/// of it.
#[verifier::external_body]
fn system_now() -> SystemTime {
    SystemTime::now()
}

/// `SystemTime::duration_since(UNIX_EPOCH)` of `t` in whole seconds
/// (`Duration::as_secs`), or 0 when `t` reads earlier than the epoch (the
/// error mapped to the default).  Nothing is promised of the value.
#[verifier::external_body]
fn secs_since_epoch(t: &SystemTime) -> u64 {
    t.duration_since(UNIX_EPOCH).unwrap_or_default().as_secs()
}

/// Current Unix time in whole seconds, by the wall clock (0 if the clock
/// reads earlier than the epoch).
pub fn current_unix_secs() -> u64 {
    let t = system_now();
    secs_since_epoch(&t)
}

} // verus!
