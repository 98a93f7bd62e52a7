use vstd::prelude::*;

verus! {

/// How long a knocked-out player stays on the field.
pub const DESPAWN_SECONDS: u64 = 5;

/// How long a player must wait between throws.
///
/// This doubles as the time a player must wait between picking up a ball and
/// throwing it.
pub const THROW_COOLDOWN_MILLIS: u64 = 2000;

} // verus!
