//! Tabletop-style character data.
pub mod enums;
