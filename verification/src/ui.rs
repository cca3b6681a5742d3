//! What the user is shown and asked, as text. Printing and reading are the
//! caller's.

pub mod banner;
pub mod prompt;
pub mod status;
