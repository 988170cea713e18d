//! Sprite-sheet character animation: frame clocks, named animation tracks,
//! the per-layer animation state machine, and the scene passes that build a
//! character's layers and keep their animations in step.

pub mod clock;
pub mod tracks;
pub mod tilesetanims;
pub mod chainlink;
pub mod character;
pub mod loader;
pub mod scene;
pub mod systems;
