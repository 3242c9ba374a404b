//! How script text is handed to the JavaScript engine, and how its errors are reported.
use vstd::prelude::*;

use crate::text::{ends_with, str_ends_with};

verus! {

/// The script text with a `sourceURL` comment naming it, on a line of its own.
pub open spec fn source_with_url(source: Seq<char>, filename: Seq<char>) -> Seq<char> {
    (if ends_with(source, seq!['\n']) {
        source
    } else {
        source.push('\n')
    }) + "//# sourceURL="@ + filename + seq!['\n']
}

/// Appends the `sourceURL` comment that names a script in the engine's stack traces.
pub fn with_source_url(source: &str, filename: &str) -> (r: String)
    ensures
        r@ == source_with_url(source@, filename@),
{
    let mut script = String::from_str(source);
    let ends_in_newline = str_ends_with(source, "\n");
    proof {
        reveal_strlit("\n");
    }
    if !ends_in_newline {
        script.append("\n");
        assert(script@ =~= source@.push('\n'));
    }
    assert("\n"@ =~= seq!['\n']);
    script.append("//# sourceURL=");
    script.append(filename);
    script.append("\n");
    script
}

/// The message of a thrown value: its `message` (with its `stack`, when it has one), or
/// else its debug rendering.
pub open spec fn exception_text(message: Option<Seq<char>>, stack: Option<Seq<char>>, debug: Seq<char>) -> Seq<char> {
    match message {
        Some(m) => match stack {
            Some(s) => "Error: "@ + m + "\nStack: "@ + s,
            None => "Error: "@ + m,
        },
        None => debug,
    }
}

/// Describes a thrown value from its `message` and `stack` properties (when they read as
/// strings) and its debug rendering.
pub fn exception_message(message: Option<&str>, stack: Option<&str>, debug: &str) -> (r: String)
    ensures
        r@ == exception_text(
            match message {
                Some(m) => Some(m@),
                None => None,
            },
            match stack {
                Some(s) => Some(s@),
                None => None,
            },
            debug@,
        ),
{
    match message {
        Some(m) => {
            let mut r = String::from_str("Error: ");
            r.append(m);
            match stack {
                Some(s) => {
                    r.append("\nStack: ");
                    r.append(s);
                },
                None => {},
            }
            r
        },
        None => String::from_str(debug),
    }
}

} // verus!
