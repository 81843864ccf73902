//! An in-memory model of a node-and-edge diagram: points placed on a plane,
//! the links between them, and the lookups an editor needs to turn pointer
//! coordinates into operations on the diagram; with it, what the editor's
//! canvas makes of the pointer and what it draws.

pub mod canvas;
pub mod netwk;
pub mod point;
pub mod ui;
