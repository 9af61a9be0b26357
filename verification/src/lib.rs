//! Parsers for energy offtake data files: electricity profile files in the
//! Elexon pipe-separated layout and gas seasonal composite weather variable
//! files. Every parser works on the bytes of a UTF-8 text and reports its
//! outcome as nom does: a value with the rest of the input, or an error that
//! points into the input.
pub mod span;
pub mod errors;
pub mod text;
pub mod number;
pub mod calendar;
pub mod electricity_offtake_parser;
pub mod gas_offtake_parser;
