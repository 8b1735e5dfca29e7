//! Keeps a local mixer's volume and a NAD receiver's volume in agreement: the
//! receiver's binary frame codec, the scaling between each side's volume range
//! and an exact fraction of full volume, and the engine that decides which
//! change to pass on to which side.

pub mod protocol;
pub mod sync;
pub mod volume;
