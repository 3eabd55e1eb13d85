//! Files that are tracked in the repository and linked into place.

use crate::cli::AddArgs;
use crate::errors::Error;
use crate::execution_data::ExecutionData;
use crate::pieces::PieceView;
use crate::text::{copy_text, join_path, joined_path, text_view};
use vstd::prelude::*;

verus! {

/// Tracks a file: its content lives in the files subtree of the repository,
/// under its absolute location without the leading separator, and a symbolic
/// link at that location points to it.
#[derive(Debug, PartialEq, Eq)]
pub struct File {
    /// The location the file is linked at.
    pub location: String,
    /// What the file should look like before the operation if it exists.
    pub expected_previous_content: Option<String>,
}

impl View for File {
    type V = PieceView;

    open spec fn view(&self) -> PieceView {
        PieceView::File {
            location: self.location@,
            expected_previous_content: text_view(self.expected_previous_content),
        }
    }
}

impl Clone for File {
    fn clone(&self) -> (copy: Self)
        ensures
            copy@ == self@,
    {
        File {
            location: self.location.clone(),
            expected_previous_content: copy_text(&self.expected_previous_content),
        }
    }
}

/// Whether a location is absolute.
pub open spec fn is_absolute(location: Seq<char>) -> bool {
    location.len() > 0 && location[0] == '/'
}

/// What is known of the host while a file is being linked.
#[derive(Debug, PartialEq, Eq)]
pub enum FileEvent {
    /// Nothing yet.
    Start,
    /// Whether something exists at the location, and whether that is a
    /// symbolic link.
    Found { exists: bool, symlink: bool },
    /// What the file at the location holds.
    Content(String),
    /// Whether the file at the location and the tracked file are identical.
    Compared { identical: bool },
    /// Whether the user agreed to overwrite the file at the location.
    Answered { overwrite: bool },
}

/// What to do next while a file is being linked.
#[derive(Debug, PartialEq, Eq)]
pub enum FileAction {
    /// Find out what is at the location.
    Inspect,
    /// Read the file at the location.
    ReadContent,
    /// Compare the file at the location with the tracked file at `target`.
    Compare { target: String },
    /// Ask the user whether to overwrite the file at the location.
    Ask,
    /// Create the directory of `target` and link the location to `target`.
    Link { target: String },
    /// Give up.
    Fail(Error),
}

/// The decision that `File::execute` takes, over plain values.
pub enum FileActionView {
    Inspect,
    ReadContent,
    Compare { target: Seq<char> },
    Ask,
    Link { target: Seq<char> },
    Fail(Error),
}

impl View for FileAction {
    type V = FileActionView;

    open spec fn view(&self) -> FileActionView {
        match self {
            FileAction::Inspect => FileActionView::Inspect,
            FileAction::ReadContent => FileActionView::ReadContent,
            FileAction::Compare { target } => FileActionView::Compare { target: target@ },
            FileAction::Ask => FileActionView::Ask,
            FileAction::Link { target } => FileActionView::Link { target: target@ },
            FileAction::Fail(e) => FileActionView::Fail(*e),
        }
    }
}

/// What `File::execute` decides for a file at `location` that is expected to
/// hold `expected`, tracked at `target`, on each thing that can be known.
pub open spec fn file_step(
    expected: Option<Seq<char>>,
    target: Seq<char>,
    event: FileEvent,
) -> FileActionView {
    match event {
        FileEvent::Start => FileActionView::Inspect,
        FileEvent::Found { exists, symlink } => if exists {
            if symlink {
                FileActionView::Fail(Error::AlreadySymlink)
            } else if expected.is_some() {
                FileActionView::ReadContent
            } else {
                FileActionView::Compare { target }
            }
        } else if expected.is_some() {
            FileActionView::Fail(Error::MissingFile)
        } else {
            FileActionView::Link { target }
        },
        FileEvent::Content(actual) => if expected.is_some() && expected.unwrap() != actual@ {
            FileActionView::Fail(Error::UnexpectedContent)
        } else {
            FileActionView::Link { target }
        },
        FileEvent::Compared { identical } => if identical {
            FileActionView::Link { target }
        } else {
            FileActionView::Ask
        },
        FileEvent::Answered { overwrite } => if overwrite {
            FileActionView::Link { target }
        } else {
            FileActionView::Fail(Error::Aborted)
        },
    }
}

impl File {
    /// Whether the location is absolute, as every file piece's is.
    pub open spec fn wf(&self) -> bool {
        is_absolute(self.location@)
    }

    /// The next thing to do to link the file, given what the last thing found.
    /// It starts with `Start` and ends with `Link` or `Fail`: a file that is in
    /// the way is overwritten only if it holds what is expected, or is
    /// identical to the tracked file, or the user agrees.
    pub fn execute(&self, execution_data: &ExecutionData, event: &FileEvent) -> (action: FileAction)
        requires
            self.wf(),
        ensures
            action@ == file_step(
                text_view(self.expected_previous_content),
                joined_path(execution_data.file_dir@, self.location@.subrange(1, self.location@.len() as int)),
                *event,
            ),
    {
        match event {
            FileEvent::Start => FileAction::Inspect,
            FileEvent::Found { exists, symlink } => {
                if *exists {
                    if *symlink {
                        FileAction::Fail(Error::AlreadySymlink)
                    } else if self.expected_previous_content.is_some() {
                        FileAction::ReadContent
                    } else {
                        FileAction::Compare { target: self.target_file(execution_data) }
                    }
                } else if self.expected_previous_content.is_some() {
                    FileAction::Fail(Error::MissingFile)
                } else {
                    FileAction::Link { target: self.target_file(execution_data) }
                }
            },
            FileEvent::Content(actual) => {
                match &self.expected_previous_content {
                    Some(expected) => {
                        if *expected == *actual {
                            FileAction::Link { target: self.target_file(execution_data) }
                        } else {
                            FileAction::Fail(Error::UnexpectedContent)
                        }
                    },
                    None => FileAction::Link { target: self.target_file(execution_data) },
                }
            },
            FileEvent::Compared { identical } => {
                if *identical {
                    FileAction::Link { target: self.target_file(execution_data) }
                } else {
                    FileAction::Ask
                }
            },
            FileEvent::Answered { overwrite } => {
                if *overwrite {
                    FileAction::Link { target: self.target_file(execution_data) }
                } else {
                    FileAction::Fail(Error::Aborted)
                }
            },
        }
    }

    /// The location to remove when the piece is undone.
    pub fn undo(&self) -> (location: &str)
        ensures
            location@ == self.location@,
    {
        self.location.as_str()
    }

    /// Where the tracked file lives in the files subtree; the target of the
    /// symbolic link.
    pub fn target_file(&self, execution_data: &ExecutionData) -> (target: String)
        requires
            self.wf(),
        ensures
            target@ == joined_path(
                execution_data.file_dir@,
                self.location@.subrange(1, self.location@.len() as int),
            ),
    {
        join_path(execution_data.file_dir.as_str(), self.relative_location())
    }

    /// The location without its leading separator: where the tracked file
    /// lives, relative to the files subtree.
    pub fn relative_location(&self) -> (relative: &str)
        requires
            self.wf(),
        ensures
            relative@ == self.location@.subrange(1, self.location@.len() as int),
    {
        let location = self.location.as_str();
        location.substring_char(1, location.unicode_len())
    }

    /// The piece for the one absolute location that `args` names.
    pub fn from_cli(args: &AddArgs) -> (piece: Result<Self, Error>)
        ensures
            match piece {
                Ok(p) => {
                    &&& args.value@.len() == 1
                    &&& p.location@ == args.value@[0]@
                    &&& p.expected_previous_content.is_none()
                    &&& p.wf()
                },
                Err(e) => if args.value@.len() != 1 {
                    e == Error::ExpectedSingleValue
                } else {
                    e == Error::NotAbsolute && !is_absolute(args.value@[0]@)
                },
            },
    {
        if args.value.len() != 1 {
            return Err(Error::ExpectedSingleValue);
        }
        let location = args.value[0].clone();
        if location.as_str().is_empty() || location.as_str().get_char(0) != '/' {
            return Err(Error::NotAbsolute);
        }
        Ok(Self { location, expected_previous_content: None })
    }

    /// How a listing shows the piece.
    pub fn to_text(&self) -> (text: String)
        ensures
            text@ == self@.text(),
    {
        let mut text = "Tracking file at: ".to_owned();
        text.append(self.location.as_str());
        text
    }
}

} // verus!
