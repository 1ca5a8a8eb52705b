//! Verified bookkeeping of the CESS file bank: storage packages, declared and
//! uploaded files, filler data of miners, challenge sampling, and the
//! validation of RRSC equivocation reports.
pub mod bytes;
pub mod table;
pub mod types;
pub mod config;
pub mod pallet;
pub mod pricing;
pub mod package;
pub mod lists;
pub mod filler;
pub mod file;
pub mod member;
pub mod scale;
pub mod random;
pub mod perbill;
pub mod equivocation;
pub mod weights;
pub mod hooks;
pub mod laws;
pub mod random_file_list;
