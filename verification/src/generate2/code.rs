pub mod code_writer;
pub mod writer;

pub use code_writer::{CodeText, CodeWriter};
pub use writer::{StringWriter, WriteError, Writer};
