//! Code lenses of a text editor: which lenses a line shows, the cache of
//! lenses and blocks, and the steps that refresh, draw and click them.

pub mod cache;
pub mod editor;
pub mod ids;
pub mod laws;
pub mod lens;
pub mod position;
pub mod refresh;
pub mod render;
pub mod text;
