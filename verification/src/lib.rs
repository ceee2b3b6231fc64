//! A CSV linter.
//!
//! The library streams a CSV byte stream, binds named validation checks to
//! columns by header name, applies the bound checks to every data row, and
//! accumulates structured errors into a final pass/fail verdict.

pub mod checks;
pub mod cli;
pub mod csv_input;
pub mod lint_error;
pub mod linter;
pub mod linter_builder;
