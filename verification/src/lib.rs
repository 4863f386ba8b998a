//! Turns the quoted string under the cursor of a shell command line into an
//! interpolated string, with an empty hole at the cursor.
pub mod ascii;
pub mod cmd_line;
pub mod escape;
pub mod interpolate;
pub mod laws;
pub mod locate;
pub mod rewrite;
pub mod syntax;
pub mod unicode;
