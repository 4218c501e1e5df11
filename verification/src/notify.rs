//! Error dialogs through `osascript`.
use vstd::prelude::*;

use crate::privileges::applescript_literal;
use crate::text::{push_str, string_of};

pub use crate::privileges::applescript_quote;

verus! {

/// The AppleScript of a modal error dialog with an OK button.
pub open spec fn error_dialog_text(title: Seq<char>, message: Seq<char>) -> Seq<char> {
    "display dialog "@ + applescript_literal(message) + " with title "@ + applescript_literal(title)
        + " buttons {\"OK\"} default button 1 with icon stop"@
}

/// The AppleScript that shows `message` in an error dialog titled `title`.
pub fn error_dialog_script(title: &str, message: &str) -> (r: String)
    ensures
        r@ == error_dialog_text(title@, message@),
{
    let mut out: Vec<char> = Vec::new();
    push_str(&mut out, "display dialog ");
    let m = applescript_quote(message);
    push_str(&mut out, m.as_str());
    push_str(&mut out, " with title ");
    let t = applescript_quote(title);
    push_str(&mut out, t.as_str());
    push_str(&mut out, " buttons {\"OK\"} default button 1 with icon stop");
    string_of(&out)
}

} // verus!
