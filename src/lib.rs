//! Accumulation core of a Buddhabrot renderer: colors whose channels count
//! orbit hits, the pixel grid they accumulate in, and the decisions of the
//! sampling engine (how samples are shared among workers, when progress is
//! reported, which pixels are plotted, how worker-local grids are merged).
//! Orbits themselves are computed in floating point by the caller.

pub mod color;
pub mod image;
pub mod sample;
