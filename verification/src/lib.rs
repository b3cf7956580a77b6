//! Verified core of a GPU particle-advection viewer: the double-buffer
//! bookkeeping, the per-frame dispatch plan, the streamline index buffer,
//! the grids that seeds and field samples are laid out on, and the decisions
//! the window loop takes on input and on the state of the surface.
pub mod field_texture;
pub mod grid;
pub mod input;
pub mod particles;
pub mod ping_pong;
pub mod streamlines;
