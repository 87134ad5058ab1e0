//! The components that entities carry.
pub mod rendering;
