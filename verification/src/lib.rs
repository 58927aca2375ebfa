pub mod cli;
pub mod config;
pub mod error;
pub mod fspath;
pub mod parser;
pub mod pipeline;
pub mod renderer;
pub mod security;
pub mod template;
pub mod text;

pub use cli::Args;
pub use config::ConversionConfig;
pub use error::ConversionError;
pub use parser::ParsedDocument;
pub use pipeline::ConversionResult;
