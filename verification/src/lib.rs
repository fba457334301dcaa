pub mod tlv;
pub mod hex;
pub mod text;
pub mod smartcard;
pub mod emv;
pub mod scripts;
