pub mod command;
pub mod decimal;
pub mod error;
pub mod laws;
pub mod response;
pub mod text;

pub use command::{parse_command, Command};
pub use error::ParseMessageError;
pub use response::{parse_response, Response};
