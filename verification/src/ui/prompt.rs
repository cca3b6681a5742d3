use crate::text::{lowercase, same_text, to_lowercase, trim, trimmed};
use crate::ui::status::{concat_line, print_step_concat};
use vstd::prelude::*;
use vstd::string::StringExecFns;

verus! {

/// The question as it is shown: the prompt, the choices with the default in
/// capitals, and a colon.
pub open spec fn question_text(prompt: Seq<char>, default: bool, level: nat) -> Seq<char> {
    concat_line(
        prompt + " "@ + (if default {
            "(Y/n)"@
        } else {
            "(y/N)"@
        }) + ": "@,
        level,
    )
}

/// The answer that a reply gives, the reply being trimmed and in lower
/// case: the default for an empty one, yes or no for those words or their
/// first letters, and none for anything else.
pub open spec fn answer_of(reply: Seq<char>, default: bool) -> Option<bool> {
    if reply == ""@ {
        Some(default)
    } else if reply == "y"@ || reply == "yes"@ {
        Some(true)
    } else if reply == "n"@ || reply == "no"@ {
        Some(false)
    } else {
        None
    }
}

/// The question as it is shown.
pub fn question(prompt: &str, default: bool, level: usize) -> (r: String)
    ensures
        r@ == question_text(prompt@, default, level as nat),
{
    let mut text = prompt.to_owned();
    text.append(" ");
    text.append(if default {
        "(Y/n)"
    } else {
        "(y/N)"
    });
    text.append(": ");
    print_step_concat(text.as_str(), level)
}

/// The answer that a reply gives, the reply being trimmed and in lower case.
pub fn answer_from(reply: &str, default: bool) -> (r: Option<bool>)
    ensures
        r == answer_of(reply@, default),
{
    if same_text(reply, "") {
        Some(default)
    } else if same_text(reply, "y") || same_text(reply, "yes") {
        Some(true)
    } else if same_text(reply, "n") || same_text(reply, "no") {
        Some(false)
    } else {
        None
    }
}

/// The answer that a line of input gives to a yes-or-no question, whatever
/// the case of its letters and the whitespace around it; none where the
/// question has to be asked again.
pub fn prompt_yes_no(input: &str, default: bool) -> (r: Option<bool>)
    ensures
        r == answer_of(lowercase(trimmed(input@)), default),
{
    let reply = trim(input);
    let lowered = to_lowercase(reply.as_str());
    answer_from(lowered.as_str(), default)
}

} // verus!
