pub mod error;
pub mod generate;
pub mod paths;
pub mod raster;
pub mod spec;
pub mod text;
pub mod window;
pub mod settings;
