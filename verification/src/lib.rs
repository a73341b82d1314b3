//! Verified core of the LiteOS graphical runtime and its Linux user ABI layer.

#![allow(unused_imports)]

pub mod audio;
pub mod border;
pub mod clip;
pub mod color;
pub mod damage;
pub mod font;
pub mod gpu_list;
pub mod gradient;
pub mod host;
pub mod image;
pub mod input;
pub mod kernel;
pub mod keymap;
pub mod laws;
pub mod layout;
pub mod lru;
pub mod overflow;
pub mod paint;
pub mod range;
pub mod raster;
pub mod rect;
pub mod renderer;
pub mod retained;
pub mod scene;
pub mod shadow;
pub mod style;
pub mod styled;
pub mod text;
pub mod text_control;
pub mod transform;
pub mod tree;
pub mod uapi;
