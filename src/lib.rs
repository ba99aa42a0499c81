//! Object pooling and character data for a 2D action game.
pub mod ability;
pub mod alignment;
pub mod bullet;
pub mod control;
pub mod dnd;
pub mod effect;
pub mod enums;
pub mod flags;
pub mod footman;
pub mod interactable;
pub mod pool;
pub mod pool_laws;
pub mod tree;
pub mod weapon;
