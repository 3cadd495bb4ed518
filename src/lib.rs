//! Client-side state synchronisation and motion interpolation for a
//! multiplayer game: entities that glide toward sparse position samples,
//! a walk-cycle pose blend, a send scheduler and the applier of inbound
//! network events.
//!
//! All quantities are integers: positions and sizes in thousandths of a
//! world unit (so that one tick's travel, speed times milliseconds, is exact),
//! speeds in world units per second, time in milliseconds, blend progress in
//! thousandths.

pub mod motion;
pub mod pose;
pub mod player;
pub mod protocol;
pub mod world;
pub mod sync;
pub mod input;
pub mod render;
