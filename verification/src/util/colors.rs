//! Colours for terminal output.
//!
//! Whether text is coloured at all is decided outside the program, by
//! variables of the process and by the terminal, and can change from one
//! call to the next.
//! So a coloured text is known only to be one of these: the text as it is;
//! the text between the two escape sequences of its colour; or, where
//! colours are switched off while the text is being written, the text with
//! the second of them alone.

use vstd::prelude::*;

verus! {

/// The character that starts an escape sequence.
pub const ESCAPE: char = '\u{1b}';

/// Whether `text` holds no escape character.
pub open spec fn plain(text: Seq<char>) -> bool {
    forall|i: int| 0 <= i < text.len() ==> text[i] != ESCAPE
}

/// `text` in the colour with the code `code`, on a terminal that shows
/// colours.
pub open spec fn painted(text: Seq<char>, code: Seq<char>) -> Seq<char> {
    "\u{1b}["@ + code + "m"@ + text + "\u{1b}[0m"@
}

/// `text` with the sequence that ends a colour behind it.
pub open spec fn reset(text: Seq<char>) -> Seq<char> {
    text + "\u{1b}[0m"@
}

/// Whether `shown` is `text` in the colour with the code `code`, coloured
/// or not.
pub open spec fn shows(shown: Seq<char>, text: Seq<char>, code: Seq<char>) -> bool {
    shown == text || shown == painted(text, code) || shown == reset(text)
}

/// Code of the colour yellow.
pub open spec fn yellow_code() -> Seq<char> {
    "33"@
}

/// Code of the colour red.
pub open spec fn red_code() -> Seq<char> {
    "31"@
}

/// `text` in yellow, by `Colorize::yellow` of the crate colored, as its
/// `Display` writes it: unchanged where colours are off, else between the
/// sequence that starts yellow and the one that resets. It asks more than
/// once whether colours are on, so the first sequence can be missing. This
/// is claimed of texts without an escape character only, in which colored
/// has nothing to escape.
#[verifier::external_body]
pub(crate) fn yellow(text: &str) -> (shown: String)
    ensures
        plain(text@) ==> shows(shown@, text@, yellow_code()),
{
    colored::Colorize::yellow(text).to_string()
}

/// `text` in red, by `Colorize::red` of the crate colored, as its
/// `Display` writes it: unchanged where colours are off, else between the
/// sequence that starts red and the one that resets. It asks more than
/// once whether colours are on, so the first sequence can be missing. This
/// is claimed of texts without an escape character only, in which colored
/// has nothing to escape.
#[verifier::external_body]
pub(crate) fn red(text: &str) -> (shown: String)
    ensures
        plain(text@) ==> shows(shown@, text@, red_code()),
{
    colored::Colorize::red(text).to_string()
}

} // verus!
