//! Verified core of a photo-collage tool: layout arithmetic, JPEG/PNG metadata
//! segment handling, configuration rules and the plain data types that the
//! image pipeline exchanges.
pub mod error;
pub mod border;
pub mod bytes;
pub mod dpi;
pub mod metadata;
pub mod text;
pub mod collage;
pub mod config;
pub mod imaging;
pub mod image_proc;
pub mod image_loader;
pub mod progress;
pub mod fonts;
pub mod pipeline;
pub mod watermark;
pub mod gain_map;
pub mod color;
pub mod jpeg_output;
