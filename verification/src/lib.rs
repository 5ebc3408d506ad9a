//! A sparse, chunked tile world whose cells accumulate typed, weighted fields.
//!
//! The world is a map from chunk coordinates to chunks of 32 by 32 tiles.
//! Each tile holds at most one field of each kind; fields of one kind merge
//! with saturating arithmetic. Once per tick every tile hands a seed field on
//! to its neighbour to the east, which makes new chunks where the seed
//! crosses into ground that is not there yet, and the chunks are then put in
//! the order of the Hilbert curve.
//!
//! - [`field`]: the field algebra.
//! - [`tile`], [`chunk`]: the cells and the blocks of cells.
//! - [`point`]: coordinates of chunks, of tiles in a chunk, and of tiles in
//!   the world.
//! - [`hilbert`]: the index on the curve and the order that follows from it.
//! - [`model`]: the world as mathematics, and what holds of its steps.
//! - [`store`]: the ordered map that keeps the chunks.
//! - [`world`]: the world itself.
//! - [`block`]: blocks of typed slots.
//! - [`logic`], [`input`]: rules by kind, and what key bindings ask for.

pub mod block;
pub mod chunk;
pub mod field;
pub mod hilbert;
pub mod input;
pub mod logic;
pub mod model;
pub mod point;
pub mod store;
pub mod tile;
pub mod world;
