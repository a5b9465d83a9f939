//! A declarative UI toolkit for plugins: an element tree, a compiler for an
//! embedded markup language, and a positional differ that turns two render
//! passes into an ordered list of patches for a host renderer.
pub mod builder;
pub mod callbacks;
pub mod diff;
pub mod elements;
pub mod emitter;
pub mod events;
pub mod internet;
pub mod jsx;
pub mod logging;
pub mod parser;
pub mod permissions;
pub mod renderer;
pub mod serialize;
pub mod tokens;
