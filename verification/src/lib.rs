//! Scene description model of a small ray tracer: command-line object
//! parsing, colour decoding, inline (gzip + base64) asset packing and texture
//! lookup.  Every scalar of the scene is carried as the IEEE-754 bit pattern of
//! a single-precision value; arithmetic on those values is left to the caller.

pub mod vector;
pub mod text;
pub mod scene;
pub mod args;
pub mod defaults;
pub mod from_args;
pub mod parse_args;
pub mod wrapper;
pub mod color;
pub mod inline;
pub mod assets;
pub mod render;
pub mod bvh;
