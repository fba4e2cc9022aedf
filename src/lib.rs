//! A snapshot-testing library for shell commands: the line diff engine, the
//! REPL command language, the interactive view model, the in-memory
//! snapshot repository, and the decisions of the test driver.

pub mod data;
pub mod diff;
pub mod driver;
pub mod editor;
pub mod error;
pub mod parser;
pub mod scanner;
pub mod script;
pub mod text;
pub mod util;
pub mod view;
