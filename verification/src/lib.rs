pub mod args;
pub mod display;
pub mod parse;
pub mod time;
