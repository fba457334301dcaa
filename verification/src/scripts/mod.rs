pub mod send_ppse;
