//! A focus-navigation tile grid for remote-control style media browsers.
//!
//! The grid is a column of horizontally scrolling rows of image tiles. Exactly
//! one row and one tile hold the focus; every focus move retargets the scroll
//! positions, which then glide to their targets one frame at a time. Images are
//! requested once per distinct source and shared by every tile that shows them.
//!
//! All continuous quantities (positions, sizes, scroll offsets, zoom factors)
//! are fixed-point integers counted in millionths, see [`fixed`].

pub mod fixed;
pub mod easing;
pub mod input;
pub mod scroll;
pub mod texture_manager;
pub mod posteritem;
pub mod item;
pub mod rowlist;
pub mod columnlist;
