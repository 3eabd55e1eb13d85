//! Styles for a terminal.

use color_eyre::owo_colors::OwoColorize;
use vstd::prelude::*;

verus! {

/// A text between the escape sequence that switches a style on and the one
/// that resets all styles.
pub open spec fn in_style(on: Seq<char>, text: Seq<char>) -> Seq<char> {
    on + text + "\x1b[0m"@
}

/// A text between the escape sequence that sets a foreground colour and the
/// one that sets the default colour.
pub open spec fn in_colour(on: Seq<char>, text: Seq<char>) -> Seq<char> {
    on + text + "\x1b[39m"@
}

/// `OwoColorize::bold`, displayed: the text in bold.
#[verifier::external_body]
pub(crate) fn bold(text: &str) -> (styled: String)
    ensures
        styled@ == in_style("\x1b[1m"@, text@),
{
    format!("{}", text.bold())
}

/// `OwoColorize::italic`, displayed: the text in italics.
#[verifier::external_body]
pub(crate) fn italic(text: &str) -> (styled: String)
    ensures
        styled@ == in_style("\x1b[3m"@, text@),
{
    format!("{}", text.italic())
}

/// `OwoColorize::strikethrough`, displayed: the text struck through.
#[verifier::external_body]
pub(crate) fn strikethrough(text: &str) -> (styled: String)
    ensures
        styled@ == in_style("\x1b[9m"@, text@),
{
    format!("{}", text.strikethrough())
}

/// `OwoColorize::magenta`, displayed: the text in magenta.
#[verifier::external_body]
pub(crate) fn magenta(text: &str) -> (styled: String)
    ensures
        styled@ == in_colour("\x1b[35m"@, text@),
{
    format!("{}", text.magenta())
}

/// `OwoColorize::bright_cyan`, displayed: the text in bright cyan.
#[verifier::external_body]
pub(crate) fn bright_cyan(text: &str) -> (styled: String)
    ensures
        styled@ == in_colour("\x1b[96m"@, text@),
{
    format!("{}", text.bright_cyan())
}

} // verus!
