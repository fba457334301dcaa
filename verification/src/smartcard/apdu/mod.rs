pub mod command;
pub mod response;
