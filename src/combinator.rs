pub mod filter;
pub mod map;
