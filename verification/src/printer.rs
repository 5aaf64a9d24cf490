//! Printers of generated Rust code.

pub mod impl_from;
