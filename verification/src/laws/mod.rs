//! What holds of the library as a whole.

pub mod images;
pub mod jobs;
pub mod names;
pub mod options;
pub mod reports;
pub mod runs;
pub mod steps;
pub mod textures;
pub mod writers;
