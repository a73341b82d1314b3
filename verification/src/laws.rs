//! What the library's operations are for, stated of all inputs and proved from
//! the definitions that the functions' contracts use.

pub mod boxes;
pub mod controls;
pub mod desktop;
pub mod editing;
pub mod filing;
pub mod frames;
pub mod hosting;
pub mod limits;
pub mod media;
pub mod messages;
pub mod painting;
pub mod paints;
pub mod pictures;
pub mod pointing;
pub mod rasters;
pub mod reading;
pub mod splitting;
pub mod trees;
pub mod wires;
