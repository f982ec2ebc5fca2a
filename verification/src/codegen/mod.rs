//! Analyses that native code generation needs before it emits code.
pub mod capture;
