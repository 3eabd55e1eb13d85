//! One record of the ledger, and its lifecycle on each machine: whether it is
//! to be executed, to be undone, or to be left alone.

use crate::cli::{format_id, id_text, AddArgs, EditArgs, UndoArgs};
use crate::errors::Error;
use crate::execution_data::ExecutionData;
use crate::machine::{random_u32, Machine};
use crate::pieces::{declared_piece, NonBulkPieceEnum, PieceEnum, PieceView};
use crate::style::{bold, bright_cyan, in_colour, in_style, italic, magenta, strikethrough};
use crate::text::{copy_text, text_view};
use crate::utils::{contains, copy_machines, set_eq, subset};
use vstd::prelude::*;

verus! {

/// What is due for a record on a machine.
#[derive(Debug, Clone, Copy, PartialEq, Eq, Structural)]
pub enum Todo {
    Noop,
    Execute,
    Undo,
}

/// One declared piece with what every machine has done about it.
#[derive(Debug, PartialEq, Eq)]
pub struct FullPiece {
    piece: PieceEnum,
    /// An optional comment to clarify the use of the piece.
    comment: Option<String>,
    /// The machines on which this piece is done.
    done_on: Vec<Machine>,
    /// `Some` if this piece is to be undone: the machines on which it is
    /// undone already.
    undone_on: Option<Vec<Machine>>,
    /// `Some` if this piece is to be executed just once, and so not on machines
    /// that join later: the machines to do it on.
    one_time_todo_on: Option<Vec<Machine>>,
}

/// A record as plain values.
pub struct FullPieceView {
    pub piece: PieceView,
    pub comment: Option<Seq<char>>,
    pub done_on: Seq<Machine>,
    pub undone_on: Option<Seq<Machine>>,
    pub one_time_todo_on: Option<Seq<Machine>>,
}

/// The machines of a list that may be absent.
pub open spec fn machines_view(machines: Option<Vec<Machine>>) -> Option<Seq<Machine>> {
    match machines {
        Some(m) => Some(m@),
        None => None,
    }
}

impl FullPieceView {
    /// A record is undone only on machines on which it is done, and a file
    /// piece's location is absolute.
    pub open spec fn wf(self) -> bool {
        &&& self.piece.wf()
        &&& self.undone_on matches Some(undone) ==> undone.to_set().subset_of(
            self.done_on.to_set(),
        )
    }

    /// What is due on `machine`: a record that is not marked for undo is
    /// executed where it is not done; one that is marked is undone where it is
    /// done and not yet undone.
    pub open spec fn todo(self, machine: Machine) -> Todo {
        let done = self.done_on.contains(machine);
        match self.undone_on {
            None => if done {
                Todo::Noop
            } else {
                Todo::Execute
            },
            Some(undone) => if done && !undone.contains(machine) {
                Todo::Undo
            } else {
                Todo::Noop
            },
        }
    }

    /// Whether the record can be deleted without any known machine missing it:
    /// every machine that did it has undone it, or it was to run once and has
    /// run on exactly the machines it was meant for.
    pub open spec fn unused(self) -> bool {
        match self.undone_on {
            Some(undone) => self.done_on.to_set() == undone.to_set(),
            None => match self.one_time_todo_on {
                Some(target) => self.done_on.to_set() == target.to_set(),
                None => false,
            },
        }
    }

    /// The record once `machine` has done what was due on it.
    pub open spec fn applied(self, machine: Machine) -> FullPieceView {
        match self.todo(machine) {
            Todo::Noop => self,
            Todo::Execute => FullPieceView { done_on: self.done_on.push(machine), ..self },
            Todo::Undo => FullPieceView {
                undone_on: Some(self.undone_on.unwrap().push(machine)),
                ..self
            },
        }
    }

    /// The record once it is marked for undo by `machine`. Where the machine
    /// says that it has undone the piece already, and the piece was done on it,
    /// the machine counts as undone.
    pub open spec fn marked_for_undo(self, machine: Machine, done_here: bool) -> FullPieceView {
        FullPieceView {
            undone_on: Some(
                if done_here && self.done_on.contains(machine) {
                    seq![machine]
                } else {
                    Seq::empty()
                },
            ),
            ..self
        }
    }

    /// The record after an edit, and how the edit ended. The four changes are
    /// made in this order: set the comment, remove the comment, set the undo
    /// command, remove the undo command. The first that fails ends the edit,
    /// and what was changed before it stays.
    pub open spec fn edited(
        self,
        comment: Option<Seq<char>>,
        remove_comment: bool,
        undo: Option<Seq<char>>,
        remove_undo: bool,
    ) -> (FullPieceView, Result<(), Error>) {
        let first = if comment.is_some() {
            FullPieceView { comment, ..self }
        } else {
            self
        };
        if remove_comment && first.comment.is_none() {
            (first, Err(Error::NoComment))
        } else {
            let second = if remove_comment {
                FullPieceView { comment: None, ..first }
            } else {
                first
            };
            if undo.is_some() && !(second.piece is Command) {
                (second, Err(Error::NotACommand))
            } else {
                let third = if undo.is_some() {
                    FullPieceView { piece: with_undo_command(second.piece, undo), ..second }
                } else {
                    second
                };
                if remove_undo && !(third.piece is Command) {
                    (third, Err(Error::NotACommand))
                } else if remove_undo && third.piece.has_undo() == false {
                    (third, Err(Error::NoUndoCommand))
                } else if remove_undo {
                    (
                        FullPieceView { piece: with_undo_command(third.piece, None), ..third },
                        Ok(()),
                    )
                } else {
                    (third, Ok(()))
                }
            }
        }
    }
}

/// A command piece with another undo command; any other piece as it is.
pub open spec fn with_undo_command(piece: PieceView, undo: Option<Seq<char>>) -> PieceView {
    match piece {
        PieceView::Command { command, .. } => PieceView::Command { command, undo_command: undo },
        _ => piece,
    }
}

impl View for FullPiece {
    type V = FullPieceView;

    closed spec fn view(&self) -> FullPieceView {
        FullPieceView {
            piece: self.piece@,
            comment: text_view(self.comment),
            done_on: self.done_on@,
            undone_on: machines_view(self.undone_on),
            one_time_todo_on: machines_view(self.one_time_todo_on),
        }
    }
}

/// One line of a listing, in parts.
#[derive(Debug, PartialEq, Eq)]
pub struct Listing {
    /// The id between square brackets.
    pub id_prefix: String,
    /// The piece.
    pub piece: String,
    /// The comment behind ` // `, or nothing.
    pub comment_suffix: String,
    /// ` (unused)` for a record that can be removed, or nothing.
    pub unused_suffix: String,
    /// Whether the record is marked for undo, and so shown struck through.
    pub undone: bool,
}

/// One line of a listing as plain values.
pub struct ListingView {
    pub id_prefix: Seq<char>,
    pub piece: Seq<char>,
    pub comment_suffix: Seq<char>,
    pub unused_suffix: Seq<char>,
    pub undone: bool,
}

impl View for Listing {
    type V = ListingView;

    open spec fn view(&self) -> ListingView {
        ListingView {
            id_prefix: self.id_prefix@,
            piece: self.piece@,
            comment_suffix: self.comment_suffix@,
            unused_suffix: self.unused_suffix@,
            undone: self.undone,
        }
    }
}

/// The line that a listing shows for `record` under `id`.
pub open spec fn listing_of(id: u32, record: FullPieceView) -> ListingView {
    ListingView {
        id_prefix: seq!['['] + id_text(id) + seq![']'],
        piece: record.piece.text(),
        comment_suffix: match record.comment {
            Some(comment) => " // "@ + comment,
            None => Seq::empty(),
        },
        unused_suffix: if record.unused() {
            " (unused)"@
        } else {
            Seq::empty()
        },
        undone: record.undone_on.is_some(),
    }
}

/// A line as plain text: the id, a space, the piece, the comment and the note
/// that the record is unused.
pub open spec fn plain_line(line: ListingView) -> Seq<char> {
    line.id_prefix + seq![' '] + line.piece + line.comment_suffix + line.unused_suffix
}

/// A line as a terminal shows it: the id in bold magenta, the note that the
/// record is unused in bright cyan italics, and everything but that note
/// struck through where the record is marked for undo.
pub open spec fn styled_line(line: ListingView) -> Seq<char> {
    let id = in_style("\x1b[1m"@, in_colour("\x1b[35m"@, line.id_prefix));
    let unused = in_colour("\x1b[96m"@, in_style("\x1b[3m"@, line.unused_suffix));
    if line.undone {
        in_style("\x1b[9m"@, id) + in_style("\x1b[9m"@, " "@) + in_style("\x1b[9m"@, line.piece)
            + in_style("\x1b[9m"@, line.comment_suffix) + unused
    } else {
        id + " "@ + line.piece + line.comment_suffix + unused
    }
}

impl Listing {
    /// The line as plain text.
    pub fn plain(&self) -> (line: String)
        ensures
            line@ == plain_line(self@),
    {
        let mut line = self.id_prefix.clone();
        line.push(' ');
        line.append(self.piece.as_str());
        line.append(self.comment_suffix.as_str());
        line.append(self.unused_suffix.as_str());
        line
    }

    /// The line with the escape sequences that style it on a terminal.
    pub fn styled(&self) -> (line: String)
        ensures
            line@ == styled_line(self@),
    {
        let id = bold(magenta(self.id_prefix.as_str()).as_str());
        let unused = bright_cyan(italic(self.unused_suffix.as_str()).as_str());
        if self.undone {
            let mut line = strikethrough(id.as_str());
            line.append(strikethrough(" ").as_str());
            line.append(strikethrough(self.piece.as_str()).as_str());
            line.append(strikethrough(self.comment_suffix.as_str()).as_str());
            line.append(unused.as_str());
            line
        } else {
            let mut line = id;
            line.append(" ");
            line.append(self.piece.as_str());
            line.append(self.comment_suffix.as_str());
            line.append(unused.as_str());
            line
        }
    }
}

fn copy_machine_list(machines: &Option<Vec<Machine>>) -> (copy: Option<Vec<Machine>>)
    ensures
        machines_view(copy) == machines_view(*machines),
{
    match machines {
        Some(m) => Some(copy_machines(m)),
        None => None,
    }
}

impl Clone for FullPiece {
    fn clone(&self) -> (copy: Self)
        ensures
            copy@ == self@,
    {
        FullPiece {
            piece: self.piece.clone(),
            comment: copy_text(&self.comment),
            done_on: copy_machines(&self.done_on),
            undone_on: copy_machine_list(&self.undone_on),
            one_time_todo_on: copy_machine_list(&self.one_time_todo_on),
        }
    }
}

impl FullPiece {
    /// A record of `piece` that no machine has done yet.
    pub fn new(piece: PieceEnum, comment: Option<String>) -> (record: Self)
        requires
            piece@.wf(),
        ensures
            record@ == (FullPieceView {
                piece: piece@,
                comment: text_view(comment),
                done_on: Seq::empty(),
                undone_on: None,
                one_time_todo_on: None,
            }),
            record@.wf(),
    {
        Self { piece, comment, done_on: Vec::new(), undone_on: None, one_time_todo_on: None }
    }

    /// A record of these parts, as they come out of a ledger file. It fails
    /// with `InvariantViolation` where the parts claim that the piece is undone
    /// on a machine on which it is not done, or where a file location is not
    /// absolute.
    pub fn from_parts(
        piece: PieceEnum,
        comment: Option<String>,
        done_on: Vec<Machine>,
        undone_on: Option<Vec<Machine>>,
        one_time_todo_on: Option<Vec<Machine>>,
    ) -> (record: Result<Self, Error>)
        ensures
            match record {
                Ok(r) => r@ == (FullPieceView {
                    piece: piece@,
                    comment: text_view(comment),
                    done_on: done_on@,
                    undone_on: machines_view(undone_on),
                    one_time_todo_on: machines_view(one_time_todo_on),
                }) && r@.wf(),
                Err(e) => e == Error::InvariantViolation && !(FullPieceView {
                    piece: piece@,
                    comment: text_view(comment),
                    done_on: done_on@,
                    undone_on: machines_view(undone_on),
                    one_time_todo_on: machines_view(one_time_todo_on),
                }).wf(),
            },
    {
        let located = match &piece {
            PieceEnum::NonBulk(NonBulkPieceEnum::File(file)) => !file.location.as_str().is_empty()
                && file.location.as_str().get_char(0) == '/',
            _ => true,
        };
        let undone_where_done = match &undone_on {
            Some(undone) => subset(undone, &done_on),
            None => true,
        };
        if located && undone_where_done {
            Ok(Self { piece, comment, done_on, undone_on, one_time_todo_on })
        } else {
            Err(Error::InvariantViolation)
        }
    }

    pub fn piece(&self) -> (piece: &PieceEnum)
        ensures
            piece@ == self@.piece,
    {
        &self.piece
    }

    pub fn comment(&self) -> (comment: &Option<String>)
        ensures
            text_view(*comment) == self@.comment,
    {
        &self.comment
    }

    pub fn done_on(&self) -> (machines: &Vec<Machine>)
        ensures
            machines@ == self@.done_on,
    {
        &self.done_on
    }

    pub fn undone_on(&self) -> (machines: &Option<Vec<Machine>>)
        ensures
            machines_view(*machines) == self@.undone_on,
    {
        &self.undone_on
    }

    pub fn one_time_todo_on(&self) -> (machines: &Option<Vec<Machine>>)
        ensures
            machines_view(*machines) == self@.one_time_todo_on,
    {
        &self.one_time_todo_on
    }

    /// What is due for this record on `machine`.
    pub fn todo(&self, machine: &Machine) -> (todo: Todo)
        requires
            self@.wf(),
        ensures
            todo == self@.todo(*machine),
    {
        let done = contains(&self.done_on, machine);
        match &self.undone_on {
            None => if done {
                Todo::Noop
            } else {
                Todo::Execute
            },
            Some(undone) => if done && !contains(undone, machine) {
                Todo::Undo
            } else {
                Todo::Noop
            },
        }
    }

    /// Records that `machine` has done what was due on it: an executed piece is
    /// now done there, an undone piece is now undone there. Machines are only
    /// ever added.
    pub fn complete(&mut self, machine: &Machine)
        requires
            old(self)@.wf(),
        ensures
            final(self)@ == old(self)@.applied(*machine),
            final(self)@.wf(),
            final(self)@.todo(*machine) == Todo::Noop,
    {
        proof {
            lemma_applied(self@, *machine);
        }
        match self.todo(machine) {
            Todo::Noop => {},
            Todo::Execute => {
                self.done_on.push(*machine);
            },
            Todo::Undo => {
                match &mut self.undone_on {
                    Some(undone) => {
                        undone.push(*machine);
                    },
                    None => {},
                }
            },
        }
    }

    /// The record that `add` makes of its arguments, before any machine has
    /// done it.
    pub fn from_cli(args: &AddArgs) -> (record: Result<Self, Error>)
        ensures
            match record {
                Ok(r) => declared_piece(args.piece, args.value.deep_view()) == Ok::<
                    PieceView,
                    Error,
                >(r@.piece) && r@ == (FullPieceView {
                    piece: r@.piece,
                    comment: text_view(args.comment),
                    done_on: Seq::empty(),
                    undone_on: None,
                    one_time_todo_on: None,
                }) && r@.wf(),
                Err(e) => declared_piece(args.piece, args.value.deep_view()) == Err::<
                    PieceView,
                    Error,
                >(e),
            },
    {
        match PieceEnum::from_cli(args) {
            Ok(piece) => Ok(Self::new(piece, copy_text(&args.comment))),
            Err(e) => Err(e),
        }
    }

    /// A new record for the ledger, under a random id. The piece counts as
    /// done on this machine, unless the arguments ask to run it here: then it
    /// is due here like on any other machine.
    pub fn add(args: &AddArgs, execution_data: &ExecutionData) -> (added: Result<(u32, Self), Error>)
        ensures
            match added {
                Ok((_, r)) => declared_piece(args.piece, args.value.deep_view()) == Ok::<
                    PieceView,
                    Error,
                >(r@.piece) && r@ == (FullPieceView {
                    piece: r@.piece,
                    comment: text_view(args.comment),
                    done_on: if args.not_done_here {
                        Seq::empty()
                    } else {
                        seq![execution_data.machine]
                    },
                    undone_on: None,
                    one_time_todo_on: None,
                }) && r@.wf(),
                Err(e) => declared_piece(args.piece, args.value.deep_view()) == Err::<
                    PieceView,
                    Error,
                >(e),
            },
    {
        match Self::from_cli(args) {
            Ok(record) => {
                let mut record = record;
                if !args.not_done_here {
                    record.done_on.push(execution_data.machine);
                    assert(record.done_on@ =~= seq![execution_data.machine]);
                }
                Ok((Self::new_id(), record))
            },
            Err(e) => Err(e),
        }
    }

    fn new_id() -> u32 {
        random_u32()
    }

    /// Marks the record for undo. It fails where the record is marked already.
    /// Where the arguments say that the piece has been undone on this machine
    /// by hand, and it was done here, this machine counts as undone at once;
    /// else the undo is due here like on any other machine.
    pub fn undo(
        &mut self,
        args: &UndoArgs,
        execution_data: &ExecutionData,
    ) -> (result: Result<(), Error>)
        requires
            old(self)@.wf(),
        ensures
            match result {
                Ok(()) => old(self)@.undone_on.is_none() && final(self)@ == old(self)@.marked_for_undo(execution_data.machine, args.done_here),
                Err(e) => e == Error::AlreadyUndone && old(self)@.undone_on.is_some() && final(self)@ == old(self)@,
            },
            final(self)@.wf(),
    {
        if self.undone_on.is_some() {
            return Err(Error::AlreadyUndone);
        }
        let mut undone: Vec<Machine> = Vec::new();
        if args.done_here && contains(&self.done_on, &execution_data.machine) {
            undone.push(execution_data.machine);
            proof {
                assert(undone@ =~= seq![execution_data.machine]);
                assert forall|m: Machine| undone@.to_set().contains(m) implies self.done_on@.to_set().contains(
                    m,
                ) by {
                    let i = choose|i: int| 0 <= i < undone@.len() && undone@[i] == m;
                }
            }
        } else {
            proof {
                assert forall|m: Machine| undone@.to_set().contains(m) implies self.done_on@.to_set().contains(
                    m,
                ) by {
                    let i = choose|i: int| 0 <= i < undone@.len() && undone@[i] == m;
                }
            }
        }
        self.undone_on = Some(undone);
        Ok(())
    }

    /// Edits the record as the arguments say: a new comment, no comment, a new
    /// undo command, no undo command, in this order. The first change that
    /// cannot be made ends the edit with its error, and the changes before it
    /// stay.
    pub fn edit(&mut self, args: &EditArgs) -> (result: Result<(), Error>)
        ensures
            (final(self)@, result) == old(self)@.edited(
                text_view(args.comment),
                args.remove_comment,
                text_view(args.undo),
                args.remove_undo,
            ),
            old(self)@.wf() ==> final(self)@.wf(),
    {
        match &args.comment {
            Some(comment) => {
                self.comment = Some(comment.clone());
            },
            None => {},
        }
        if args.remove_comment {
            if self.comment.is_none() {
                return Err(Error::NoComment);
            }
            self.comment = None;
        }
        match &args.undo {
            Some(undo) => {
                match &mut self.piece {
                    PieceEnum::NonBulk(NonBulkPieceEnum::Command(command)) => {
                        command.undo_command = Some(undo.clone());
                    },
                    _ => {
                        return Err(Error::NotACommand);
                    },
                }
            },
            None => {},
        }
        if args.remove_undo {
            match &mut self.piece {
                PieceEnum::NonBulk(NonBulkPieceEnum::Command(command)) => {
                    if command.undo_command.is_none() {
                        return Err(Error::NoUndoCommand);
                    }
                    command.undo_command = None;
                },
                _ => {
                    return Err(Error::NotACommand);
                },
            }
        }
        Ok(())
    }

    /// Where the tracked file of a file piece lives, relative to the files
    /// subtree; `None` for any other piece.
    pub fn file(&self) -> (path: Option<&str>)
        requires
            self@.wf(),
        ensures
            path.is_some() == (self@.piece is File),
            path matches Some(p) ==> self@.piece matches PieceView::File { location, .. } && p@
                == location.subrange(1, location.len() as int),
    {
        match &self.piece {
            PieceEnum::NonBulk(NonBulkPieceEnum::File(file)) => Some(file.relative_location()),
            _ => None,
        }
    }

    /// The line that a listing shows for this record under `id`, styled for a
    /// terminal.
    pub fn print(&self, id: u32) -> (line: String)
        ensures
            line@ == styled_line(listing_of(id, self@)),
    {
        self.listing(id).styled()
    }

    /// The line that a listing shows for this record under `id`, in parts.
    pub fn listing(&self, id: u32) -> (line: Listing)
        ensures
            line@ == listing_of(id, self@),
    {
        let mut id_prefix = String::new();
        id_prefix.push('[');
        id_prefix.append(format_id(id).as_str());
        id_prefix.push(']');
        let comment_suffix = match &self.comment {
            Some(comment) => {
                let mut suffix = " // ".to_owned();
                suffix.append(comment.as_str());
                suffix
            },
            None => String::new(),
        };
        let unused_suffix = if self.unused() {
            " (unused)".to_owned()
        } else {
            String::new()
        };
        proof {
            assert(id_prefix@ =~= seq!['['] + id_text(id) + seq![']']);
        }
        Listing {
            id_prefix,
            piece: self.piece.to_text(),
            comment_suffix,
            unused_suffix,
            undone: self.undone_on.is_some(),
        }
    }

    /// Returns true if the record is safe to clean up.
    pub fn unused(&self) -> (unused: bool)
        ensures
            unused == self@.unused(),
    {
        match &self.undone_on {
            Some(undone) => set_eq(&self.done_on, undone),
            None => match &self.one_time_todo_on {
                Some(target) => set_eq(&self.done_on, target),
                None => false,
            },
        }
    }
}

/// Doing what is due keeps a record well formed, loses no machine, and leaves
/// nothing due on that machine.
pub proof fn lemma_applied(record: FullPieceView, machine: Machine)
    requires
        record.wf(),
    ensures
        record.applied(machine).wf(),
        record.applied(machine).todo(machine) == Todo::Noop,
        record.done_on.is_prefix_of(record.applied(machine).done_on),
        record.undone_on matches Some(undone) ==> record.applied(machine).undone_on.is_some()
            && undone.is_prefix_of(record.applied(machine).undone_on.unwrap()),
        record.undone_on.is_none() ==> record.applied(machine).undone_on.is_none(),
{
    let after = record.applied(machine);
    match record.todo(machine) {
        Todo::Noop => {},
        Todo::Execute => {
            assert(after.done_on[record.done_on.len() as int] == machine);
        },
        Todo::Undo => {
            let undone = record.undone_on.unwrap();
            assert(after.undone_on.unwrap()[undone.len() as int] == machine);
            assert forall|m: Machine| after.undone_on.unwrap().to_set().contains(m) implies
                after.done_on.to_set().contains(m) by {
                let i = choose|i: int| 0 <= i < undone.len() + 1 && after.undone_on.unwrap()[i] == m;
                if i < undone.len() {
                    assert(undone.to_set().contains(undone[i]));
                }
            }
        },
    }
}

/// The lifecycle table. On a well-formed record, what is due on a machine
/// depends only on whether the record is done there, whether it is marked for
/// undo, and whether it is undone there; and a record is never undone where it
/// is not done.
pub proof fn lemma_todo_table(record: FullPieceView, machine: Machine)
    requires
        record.wf(),
    ensures
        !record.done_on.contains(machine) && record.undone_on.is_none() ==> record.todo(machine)
            == Todo::Execute,
        !record.done_on.contains(machine) && record.undone_on.is_some() ==> record.todo(machine)
            == Todo::Noop && !record.undone_on.unwrap().contains(machine),
        record.done_on.contains(machine) && record.undone_on.is_none() ==> record.todo(machine)
            == Todo::Noop,
        record.done_on.contains(machine) && record.undone_on.is_some()
            && !record.undone_on.unwrap().contains(machine) ==> record.todo(machine) == Todo::Undo,
        record.done_on.contains(machine) && record.undone_on.is_some()
            && record.undone_on.unwrap().contains(machine) ==> record.todo(machine) == Todo::Noop,
{
    if record.undone_on.is_some() && record.undone_on.unwrap().contains(machine) {
        assert(record.undone_on.unwrap().to_set().contains(machine));
        assert(record.done_on.to_set().contains(machine));
    }
}

/// Marking for undo and editing keep a record well formed.
pub proof fn lemma_changes_keep_wf(
    record: FullPieceView,
    machine: Machine,
    done_here: bool,
    comment: Option<Seq<char>>,
    remove_comment: bool,
    undo: Option<Seq<char>>,
    remove_undo: bool,
)
    requires
        record.wf(),
    ensures
        record.marked_for_undo(machine, done_here).wf(),
        record.edited(comment, remove_comment, undo, remove_undo).0.wf(),
        record.edited(comment, remove_comment, undo, remove_undo).0.done_on == record.done_on,
        record.edited(comment, remove_comment, undo, remove_undo).0.undone_on == record.undone_on,
{
    let marked = record.marked_for_undo(machine, done_here).undone_on.unwrap();
    assert forall|m: Machine| marked.to_set().contains(m) implies record.done_on.to_set().contains(
        m,
    ) by {
        let i = choose|i: int| 0 <= i < marked.len() && marked[i] == m;
    }
}

/// The record once each machine of a list, one after the other, has done
/// what was due on it.
pub open spec fn applied_all(record: FullPieceView, machines: Seq<Machine>) -> FullPieceView
    decreases machines.len(),
{
    if machines.len() == 0 {
        record
    } else {
        applied_all(record, machines.drop_last()).applied(machines.last())
    }
}

/// Whether `later` is `earlier` with machines added: the same piece and
/// comment, and the lists of machines only longer at their ends.
pub open spec fn grown(earlier: FullPieceView, later: FullPieceView) -> bool {
    &&& later.piece == earlier.piece
    &&& later.comment == earlier.comment
    &&& later.one_time_todo_on == earlier.one_time_todo_on
    &&& earlier.done_on.is_prefix_of(later.done_on)
    &&& match earlier.undone_on {
        Some(undone) => later.undone_on.is_some() && undone.is_prefix_of(later.undone_on.unwrap()),
        None => later.undone_on.is_none(),
    }
}

/// Machines are only ever added: however many executions and undos are
/// recorded, `done_on` and `undone_on` keep every machine they held, in place.
pub proof fn lemma_append_only(record: FullPieceView, machines: Seq<Machine>)
    requires
        record.wf(),
    ensures
        applied_all(record, machines).wf(),
        grown(record, applied_all(record, machines)),
        forall|m: Machine|
            record.done_on.contains(m) ==> applied_all(record, machines).done_on.contains(m),
        forall|m: Machine|
            record.undone_on.is_some() && record.undone_on.unwrap().contains(m) ==> applied_all(
                record,
                machines,
            ).undone_on.unwrap().contains(m),
    decreases machines.len(),
{
    if machines.len() > 0 {
        let before = applied_all(record, machines.drop_last());
        lemma_append_only(record, machines.drop_last());
        lemma_applied(before, machines.last());
        lemma_grown_keeps(record, applied_all(record, machines));
    } else {
        lemma_grown_keeps(record, record);
    }
}

/// A record that has grown holds every machine that it held.
pub proof fn lemma_grown_keeps(earlier: FullPieceView, later: FullPieceView)
    requires
        grown(earlier, later),
    ensures
        forall|m: Machine| earlier.done_on.contains(m) ==> later.done_on.contains(m),
        forall|m: Machine|
            earlier.undone_on.is_some() && earlier.undone_on.unwrap().contains(m)
                ==> later.undone_on.unwrap().contains(m),
{
    assert forall|m: Machine| earlier.done_on.contains(m) implies later.done_on.contains(m) by {
        let i = choose|i: int| 0 <= i < earlier.done_on.len() && earlier.done_on[i] == m;
        assert(later.done_on[i] == m);
    }
    if earlier.undone_on.is_some() {
        let a = earlier.undone_on.unwrap();
        let b = later.undone_on.unwrap();
        assert forall|m: Machine| a.contains(m) implies b.contains(m) by {
            let i = choose|i: int| 0 <= i < a.len() && a[i] == m;
            assert(b[i] == m);
        }
    }
}

} // verus!
