//! The backend that spends the idle part of a subscription's usage windows.

pub mod capacity;
pub mod facade;
pub mod harness;
pub mod provider;
