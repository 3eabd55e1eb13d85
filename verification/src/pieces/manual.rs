//! Actions that the user takes by hand.

use crate::cli::AddArgs;
use crate::pieces::PieceView;
use crate::text::{join, joined};
use vstd::prelude::*;

verus! {

/// Asks the user to do something by hand.
#[derive(Debug, PartialEq, Eq)]
pub struct Manual {
    /// The message to show the user.
    pub message: String,
}

impl View for Manual {
    type V = PieceView;

    open spec fn view(&self) -> PieceView {
        PieceView::Manual { message: self.message@ }
    }
}

impl Clone for Manual {
    fn clone(&self) -> (copy: Self)
        ensures
            copy@ == self@,
    {
        Manual { message: self.message.clone() }
    }
}

/// The lines that ask the user to act on `message`.
pub open spec fn manual_prompt(message: Seq<char>) -> Seq<Seq<char>> {
    seq!["Manual action required"@, message, "Continue when the action is performed."@]
}

impl Manual {
    /// The lines to show the user, who then confirms that the action is done.
    pub fn execute(&self) -> (lines: Vec<String>)
        ensures
            lines.deep_view() == manual_prompt(self.message@),
    {
        Self::print_message(self.message.as_str())
    }

    /// The lines that ask the user to take the action back.
    pub fn undo(&self) -> (lines: Vec<String>)
        ensures
            lines.deep_view() == manual_prompt("UNDO the following change: "@ + self.message@),
    {
        let mut message = "UNDO the following change: ".to_owned();
        message.append(self.message.as_str());
        Self::print_message(message.as_str())
    }

    fn print_message(message: &str) -> (lines: Vec<String>)
        ensures
            lines.deep_view() == manual_prompt(message@),
    {
        let mut lines: Vec<String> = Vec::new();
        lines.push("Manual action required".to_owned());
        lines.push(message.to_owned());
        lines.push("Continue when the action is performed.".to_owned());
        proof {
            assert(lines.deep_view() =~= manual_prompt(message@));
        }
        lines
    }

    /// The piece whose message is the words of `args`, with one space between
    /// each two.
    pub fn from_cli(args: &AddArgs) -> (piece: Self)
        ensures
            piece.message@ == joined(args.value.deep_view(), " "@),
    {
        Self { message: join(&args.value, " ") }
    }

    /// How a listing shows the piece.
    pub fn to_text(&self) -> (text: String)
        ensures
            text@ == self@.text(),
    {
        let mut text = "Manual action: ".to_owned();
        text.append(self.message.as_str());
        text
    }
}

} // verus!
