//! Nearest-structure ring search.
//!
//! Given a starting block coordinate, the library enumerates candidate
//! coordinates in concentric square bands of increasing half-width, converts
//! each perimeter point to region space, and selects the viable candidate of
//! the first non-empty band that is closest to the starting coordinate.
//! The structure-placement oracle itself (the world generator) is an external
//! collaborator: the search either consumes its answers one by one through
//! [`search::RingSearch`], or reads them from a finite table through
//! [`search::gen`].

pub mod position;
pub mod band;
pub mod oracle;
pub mod ranking;
pub mod search;
pub mod args;
