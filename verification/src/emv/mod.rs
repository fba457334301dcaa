pub mod card;
pub mod dictionary;
