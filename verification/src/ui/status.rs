use crate::text::{repeat, repeated};
use vstd::prelude::*;
use vstd::string::StringExecFns;

verus! {

/// A line of status: two spaces for each level, the mark, a space, and the
/// message.
pub open spec fn status_line(mark: Seq<char>, message: Seq<char>, level: nat) -> Seq<char> {
    repeated("  "@, level) + mark + " "@ + message
}

/// A line that goes on below a step: two spaces for each level, two more,
/// and the message.
pub open spec fn concat_line(message: Seq<char>, level: nat) -> Seq<char> {
    repeated("  "@, level) + "  "@ + message
}

fn line(mark: &str, message: &str, level: usize) -> (r: String)
    ensures
        r@ == status_line(mark@, message@, level as nat),
{
    let mut out = repeat("  ", level);
    out.append(mark);
    out.append(" ");
    out.append(message);
    out
}

/// The line that reports a failure.
pub fn println_failure(message: &str, level: usize) -> (r: String)
    ensures
        r@ == status_line("✗"@, message@, level as nat),
{
    line("✗", message, level)
}

/// The line that reports a step.
pub fn println_step(message: &str, level: usize) -> (r: String)
    ensures
        r@ == status_line("→"@, message@, level as nat),
{
    line("→", message, level)
}

/// The line that goes on below a step.
pub fn println_step_concat(message: &str, level: usize) -> (r: String)
    ensures
        r@ == concat_line(message@, level as nat),
{
    let mut out = repeat("  ", level);
    out.append("  ");
    out.append(message);
    out
}

/// The text that goes on below a step, for a line that is not ended.
pub fn print_step_concat(message: &str, level: usize) -> (r: String)
    ensures
        r@ == concat_line(message@, level as nat),
{
    println_step_concat(message, level)
}

/// The line that reports a success.
pub fn println_success(message: &str, level: usize) -> (r: String)
    ensures
        r@ == status_line("✓"@, message@, level as nat),
{
    line("✓", message, level)
}

} // verus!
