pub mod apdu;
pub mod reader;
