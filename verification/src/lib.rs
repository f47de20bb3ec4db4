//! Verified core of the disco screensaver: the discrete scene rules and the
//! placement of every glyph on the character grid.

pub mod grid;
pub mod flares;
pub mod palette;
pub mod ball;
pub mod equalizer;
pub mod logo;
pub mod scene;
pub mod audio;
pub mod sparks;
pub mod stars;
pub mod frame;
