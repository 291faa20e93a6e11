pub mod automation;
pub mod cli;
pub mod command_line;
pub mod command_line_laws;
pub mod cursor;
pub mod cursor_format;
pub mod dates;
pub mod error;
pub mod model;
pub mod service;
pub mod text;
pub mod validate;

pub use error::{MailError, Result};
pub use service::MailService;
