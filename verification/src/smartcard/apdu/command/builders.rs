pub mod emv;
pub mod inter_industry;

pub use inter_industry::{read_record, select};
