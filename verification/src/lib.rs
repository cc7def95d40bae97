//! Decision logic of a background agent that shows each image of a cloud
//! folder once as the desktop wallpaper: the order and storage format of the
//! identifiers already shown, the choice of the next image, and the steps of
//! one polling cycle.

pub mod cycle;
pub mod desktop;
pub mod error;
pub mod file_id;
pub mod image;
pub mod query;
pub mod seen;
pub mod select;
pub mod store;
pub mod text;
