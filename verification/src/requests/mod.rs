pub mod device;
pub mod start;
