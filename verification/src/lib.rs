//! A FAST-style corner detector for grayscale images.
//!
//! For every interior pixel of a frame, the detector samples a fixed ring of
//! 16 pixels at radius 3 around the candidate and classifies the candidate as
//! a corner when a long enough run of consecutive ring samples is uniformly
//! brighter or uniformly darker than the center beyond a threshold.

pub mod engine;
pub mod gray;
pub mod ring;
pub mod scan;
pub mod score;

pub use gray::Frame;
pub use ring::bresenham_circle;
pub use scan::detect;
pub use scan::detect_scored;
pub use scan::fast;
pub use score::score;
