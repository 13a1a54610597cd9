//! Carboxyl: the terminal side of a browser that paints web pages into a
//! terminal. This crate holds the logic: colour quantisation, quadrant-block
//! rasterisation of a pixel frame, the navigation bar's editing state machine,
//! the cell renderer, keyboard translation and frame timing.

pub mod color;
pub mod browser_widget;
pub mod text;
pub mod keys;
pub mod width;
pub mod layout;
pub mod nav_widget;
pub mod gfx;
pub mod renderer;
pub mod keyboard;
pub mod raw_keys;
pub mod input;
pub mod timing;
pub mod cli;
pub mod events;
pub mod css;
pub mod overlay;
pub mod url;
pub mod session;
pub mod page_text;
