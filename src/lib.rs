//! Tile decoding, sprite animation timing, entity motion, NPC behaviour and
//! dialog navigation for a small tile-based action game.
//!
//! Geometry is integral throughout: source rectangles are in atlas pixels,
//! positions are in caller-chosen sub-pixel units and rotations are in
//! degrees. Drawing code converts at its edge.
pub mod animation;
pub mod camera;
pub mod cell;
pub mod cycle;
pub mod dialogbox;
pub mod entity;
pub mod layer;
pub mod map;
pub mod math;
pub mod npc;
pub mod player;
pub mod text;
pub mod tile;
pub mod tileset;
pub mod world;
pub mod xmlelements;
