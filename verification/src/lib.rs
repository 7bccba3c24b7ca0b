//! Core logic of a small image viewer: which files are images, how names are
//! shortened for display, how folder listings are ordered, how animations are
//! held within a memory budget, and how the viewer moves between images.
pub mod text;
pub mod paths;
pub mod budget;
pub mod listing;
pub mod anim;
pub mod picture;
pub mod viewer;
pub mod input;
