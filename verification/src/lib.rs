//! Compile-time test generation, verified.
//!
//! This library holds the logic behind a family of macros that turn one test
//! body into many independently named test or benchmark functions: one per
//! file matching a file-system pattern, or one per element of a literal list.
//! The macro front end hands the library plain text; the library parses the
//! small input grammar, expands the pattern through the `glob` crate, derives
//! an identifier-safe name for every match, and renders one generated item
//! per match as source text.
//!
//! The name map is not injective: every delimiter or special character of a
//! resource becomes an underscore, so distinct resources such as `a-b` and
//! `a_b` share a name.  A float list element contributes its source text to
//! the generated name and item, not the display form of the parsed value:
//! `3.250` names a test after `3_250`.  A name that is no legal identifier
//! rejects the invocation.

pub mod canon;
pub mod clip;
pub mod deps;
pub mod expand;
pub mod expr;
pub mod globfs;
pub mod names;
pub mod numfmt;
pub mod parse;
pub mod render;
pub mod strconv;
