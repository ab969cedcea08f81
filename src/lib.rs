//! Finds string literals that look like absolute filesystem paths in the
//! text of source files, and reports each one with its file and line.
pub mod text;
pub mod detect;
pub mod ignore;
pub mod scan;
