//! Helpers of the kernel.

pub mod static_cell;

pub use static_cell::StaticCell;
