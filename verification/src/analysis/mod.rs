//! The static checks that every function passes before code is generated.

pub mod determinism;
pub mod scope;
pub mod taint;
