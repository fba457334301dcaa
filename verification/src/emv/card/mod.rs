pub mod constants;
pub mod image;
pub mod reader;
