pub mod rust;

pub use rust::RustCodeGen;
