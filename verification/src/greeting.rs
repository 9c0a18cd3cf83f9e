//! The greeting that the shell shows.

use vstd::prelude::*;

verus! {

/// The greeting for `name`.
pub fn greeting(name: &str) -> (text: String)
    ensures
        text@ == "Hello, "@ + name@ + "! You've been greeted from Rust!"@,
{
    let mut text: String = "Hello, ".to_owned();
    text.append(name);
    text.append("! You've been greeted from Rust!");
    text
}

} // verus!
