//! A colorized echo: a format string with `{...}` placeholders is parsed into
//! literal and placeholder parts, and the parts are rendered against a list of
//! arguments into text that carries ANSI escape sequences.

pub mod cecho;
pub mod colors;
pub mod error;
pub mod model;
pub mod parser;
pub mod styles;
pub mod text;
pub mod theorems;
pub mod trusted;
pub mod writer;
