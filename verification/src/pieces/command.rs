//! Commands that a shell runs.

use crate::cli::AddArgs;
use crate::errors::Error;
use crate::pieces::PieceView;
use crate::text::{copy_text, text_view};
use vstd::prelude::*;

verus! {

/// Runs a command in a shell.
#[derive(Debug, PartialEq, Eq)]
pub struct Command {
    /// The command to run.
    pub command: String,
    /// The command to run when undoing.
    pub undo_command: Option<String>,
}

impl View for Command {
    type V = PieceView;

    open spec fn view(&self) -> PieceView {
        PieceView::Command {
            command: self.command@,
            undo_command: text_view(self.undo_command),
        }
    }
}

impl Clone for Command {
    fn clone(&self) -> (copy: Self)
        ensures
            copy@ == self@,
    {
        Command { command: self.command.clone(), undo_command: copy_text(&self.undo_command) }
    }
}

/// The words into which `shell_words::split` splits a command line, `None`
/// where it rejects the line.
pub uninterp spec fn shell_split(line: Seq<char>) -> Option<Seq<Seq<char>>>;

/// The command line into which `shell_words::join` joins words.
pub uninterp spec fn shell_join(words: Seq<Seq<char>>) -> Seq<char>;

/// `shell_words::split`: the words of a command line as a shell would read
/// them, `None` where a quote is left open.
#[verifier::external_body]
fn split_words(line: &str) -> (words: Option<Vec<String>>)
    ensures
        match words {
            Some(w) => shell_split(line@) == Some(w.deep_view()),
            None => shell_split(line@).is_none(),
        },
{
    shell_words::split(line).ok()
}

/// `shell_words::join`: one command line of the words, each quoted where a
/// shell would need it.
#[verifier::external_body]
fn join_words(words: &Vec<String>) -> (line: String)
    ensures
        line@ == shell_join(words.deep_view()),
{
    shell_words::join(words)
}

/// The command that a value stands for: a single word is a whole command line
/// and is split and joined again; several words are joined.
pub open spec fn parsed_value(value: Seq<Seq<char>>) -> Option<Seq<char>> {
    if value.len() == 1 {
        match shell_split(value[0]) {
            Some(words) => Some(shell_join(words)),
            None => None,
        }
    } else {
        Some(shell_join(value))
    }
}

/// The command line that hands `command` to a shell.
pub open spec fn shell_command_line(command: Seq<char>) -> Seq<Seq<char>> {
    seq!["bash"@, "-c"@, command]
}

impl Command {
    /// The command line that runs the command.
    pub fn execute(&self) -> (line: Vec<String>)
        ensures
            line.deep_view() == shell_command_line(self.command@),
    {
        Self::run_command(self.command.as_str())
    }

    /// The command line that undoes the command, `None` where no undo command
    /// is known.
    pub fn undo(&self) -> (line: Option<Vec<String>>)
        ensures
            match line {
                Some(l) => self.undo_command matches Some(u) && l.deep_view()
                    == shell_command_line(u@),
                None => self.undo_command.is_none(),
            },
    {
        match &self.undo_command {
            Some(u) => Some(Self::run_command(u.as_str())),
            None => None,
        }
    }

    fn run_command(command: &str) -> (line: Vec<String>)
        ensures
            line.deep_view() == shell_command_line(command@),
    {
        let mut line: Vec<String> = Vec::new();
        line.push("bash".to_owned());
        line.push("-c".to_owned());
        line.push(command.to_owned());
        proof {
            assert(line.deep_view() =~= shell_command_line(command@));
        }
        line
    }

    /// The piece for the command that `args` holds, with no undo command.
    pub fn from_cli(args: &AddArgs) -> (piece: Result<Self, Error>)
        ensures
            match piece {
                Ok(p) => parsed_value(args.value.deep_view()) == Some(p.command@)
                    && p.undo_command.is_none(),
                Err(e) => e == Error::UnclosedQuote && parsed_value(
                    args.value.deep_view(),
                ).is_none(),
            },
    {
        match Self::parse_value(&args.value) {
            Ok(command) => Ok(Self { command, undo_command: None }),
            Err(e) => Err(e),
        }
    }

    /// The command that `value` stands for.
    pub fn parse_value(value: &Vec<String>) -> (command: Result<String, Error>)
        ensures
            match command {
                Ok(c) => parsed_value(value.deep_view()) == Some(c@),
                Err(e) => e == Error::UnclosedQuote && parsed_value(value.deep_view()).is_none(),
            },
    {
        if value.len() == 1 {
            assert(value.deep_view()[0] == value@[0]@);
            match split_words(value[0].as_str()) {
                Some(words) => Ok(join_words(&words)),
                None => Err(Error::UnclosedQuote),
            }
        } else {
            Ok(join_words(value))
        }
    }

    /// How a listing shows the piece.
    pub fn to_text(&self) -> (text: String)
        ensures
            text@ == self@.text(),
    {
        self.command.clone()
    }
}

} // verus!
