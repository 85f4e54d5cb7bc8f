//! Text rules: words of a line, hexadecimal addresses, decimal numbers.
pub mod address;
pub mod decimal;
pub mod words;
