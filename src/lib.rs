pub mod engine;
pub mod format;
pub mod laws;
pub mod options;
pub mod json_error;
pub mod ron_error;
