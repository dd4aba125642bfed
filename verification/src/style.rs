//! The colours of the messages on the terminal.

use vstd::prelude::*;

verus! {

/// Ends every colour.
pub const RESET: &'static str = "\x1b[0m";

pub const BOLD: &'static str = "\x1b[1m";

pub const RED: &'static str = "\x1b[91m";

pub const GREEN: &'static str = "\x1b[92m";

pub const BLUE: &'static str = "\x1b[94m";

pub const MAGENTA: &'static str = "\x1b[95m";

pub const CYAN: &'static str = "\x1b[96m";

/// `message` in a colour that ends with it.
pub open spec fn in_colour(colour: Seq<char>, message: Seq<char>) -> Seq<char> {
    colour + message + RESET@
}

/// Writes a message in a colour.
pub fn coloured(colour: &str, message: &str) -> (r: String)
    ensures
        r@ == in_colour(colour@, message@),
        r@ == colour@ + message@ + RESET@,
{
    let mut out: String = colour.to_owned();
    out.append(message);
    out.append(RESET);
    out
}

/// Writes a label in a colour, then a space and a text without colour.
pub fn labelled(colour: &str, label: &str, text: &str) -> (r: String)
    ensures
        r@ == in_colour(colour@, label@) + " "@ + text@,
        r@ == colour@ + label@ + RESET@ + " "@ + text@,
{
    let mut out: String = coloured(colour, label);
    out.append(" ");
    out.append(text);
    out
}

/// A coloured message is the sign of its colour, the whole message, and the sign that ends the
/// colour.
pub proof fn law_in_colour(colour: Seq<char>, message: Seq<char>)
    ensures
        ({
            let n = colour.len() as int;
            let r = in_colour(colour, message);
            &&& r.len() == colour.len() + message.len() + RESET@.len()
            &&& r.take(n) == colour
            &&& r.subrange(n, (n + message.len()) as int) == message
            &&& r.skip((n + message.len()) as int) == RESET@
        }),
{
    let n = colour.len() as int;
    let r = in_colour(colour, message);
    assert(r.take(n) =~= colour);
    assert(r.subrange(n, n + message.len()) =~= message);
    assert(r.skip(n + message.len()) =~= RESET@);
}

} // verus!
