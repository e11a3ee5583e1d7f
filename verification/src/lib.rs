pub mod errors;
pub mod google;
pub mod json;
pub mod message;
pub mod strings;
pub mod unescape;
pub mod usage;
pub mod utils;
