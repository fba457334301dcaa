pub mod ber;
