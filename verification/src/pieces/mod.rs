//! The kinds of piece, how they are declared on the command line, and the
//! jobs that execute or undo them.

use crate::cli::{AddArgs, Piece};
use crate::errors::Error;
use crate::execution_data::ExecutionData;
use crate::pieces::apt::Apt;
use crate::pieces::command::{parsed_value, Command};
use crate::pieces::file::{is_absolute, File};
use crate::pieces::manual::Manual;
use crate::text::{joined, same_text};
use vstd::prelude::*;

pub mod apt;
pub mod command;
pub mod file;
pub mod manual;

verus! {

/// What a piece is, as plain values: one of the four kinds with what it
/// declares.
pub enum PieceView {
    Apt { package: Seq<char> },
    Command { command: Seq<char>, undo_command: Option<Seq<char>> },
    File { location: Seq<char>, expected_previous_content: Option<Seq<char>> },
    Manual { message: Seq<char> },
}

impl PieceView {
    /// Whether pieces of this kind are executed and undone in batches.
    pub open spec fn is_bulk(self) -> bool {
        self is Apt
    }

    /// Whether the piece can be undone: only a command without an undo command
    /// cannot.
    pub open spec fn has_undo(self) -> bool {
        self matches PieceView::Command { undo_command, .. } ==> undo_command.is_some()
    }

    /// Every file piece's location is absolute.
    pub open spec fn wf(self) -> bool {
        self matches PieceView::File { location, .. } ==> is_absolute(location)
    }

    /// How a listing shows the piece.
    pub open spec fn text(self) -> Seq<char> {
        match self {
            PieceView::Apt { package } => "apt install "@ + package,
            PieceView::Command { command, .. } => command,
            PieceView::File { location, .. } => "Tracking file at: "@ + location,
            PieceView::Manual { message } => "Manual action: "@ + message,
        }
    }
}

/// A piece of any kind.
#[derive(Debug, PartialEq, Eq)]
pub enum PieceEnum {
    Bulk(BulkPieceEnum),
    NonBulk(NonBulkPieceEnum),
}

/// A piece of a kind that is executed and undone in batches.
#[non_exhaustive]
#[derive(Debug, PartialEq, Eq)]
pub enum BulkPieceEnum {
    Apt(Apt),
}

/// A piece of a kind that is executed and undone one by one.
#[non_exhaustive]
#[derive(Debug, PartialEq, Eq)]
pub enum NonBulkPieceEnum {
    Command(Command),
    File(File),
    Manual(Manual),
}

impl View for BulkPieceEnum {
    type V = PieceView;

    open spec fn view(&self) -> PieceView {
        match self {
            BulkPieceEnum::Apt(piece) => piece@,
        }
    }
}

impl View for NonBulkPieceEnum {
    type V = PieceView;

    open spec fn view(&self) -> PieceView {
        match self {
            NonBulkPieceEnum::Command(piece) => piece@,
            NonBulkPieceEnum::File(piece) => piece@,
            NonBulkPieceEnum::Manual(piece) => piece@,
        }
    }
}

impl View for PieceEnum {
    type V = PieceView;

    open spec fn view(&self) -> PieceView {
        match self {
            PieceEnum::Bulk(piece) => piece@,
            PieceEnum::NonBulk(piece) => piece@,
        }
    }
}

impl Clone for BulkPieceEnum {
    fn clone(&self) -> (copy: Self)
        ensures
            copy@ == self@,
    {
        match self {
            BulkPieceEnum::Apt(piece) => BulkPieceEnum::Apt(piece.clone()),
        }
    }
}

impl Clone for NonBulkPieceEnum {
    fn clone(&self) -> (copy: Self)
        ensures
            copy@ == self@,
    {
        match self {
            NonBulkPieceEnum::Command(piece) => NonBulkPieceEnum::Command(piece.clone()),
            NonBulkPieceEnum::File(piece) => NonBulkPieceEnum::File(piece.clone()),
            NonBulkPieceEnum::Manual(piece) => NonBulkPieceEnum::Manual(piece.clone()),
        }
    }
}

impl Clone for PieceEnum {
    fn clone(&self) -> (copy: Self)
        ensures
            copy@ == self@,
    {
        match self {
            PieceEnum::Bulk(piece) => PieceEnum::Bulk(piece.clone()),
            PieceEnum::NonBulk(piece) => PieceEnum::NonBulk(piece.clone()),
        }
    }
}

impl NonBulkPieceEnum {
    /// How a listing shows the piece.
    pub fn to_text(&self) -> (text: String)
        ensures
            text@ == self@.text(),
    {
        match self {
            NonBulkPieceEnum::Command(piece) => piece.to_text(),
            NonBulkPieceEnum::File(piece) => piece.to_text(),
            NonBulkPieceEnum::Manual(piece) => piece.to_text(),
        }
    }

    /// Whether the piece can be undone.
    pub fn has_undo(&self) -> (defined: bool)
        ensures
            defined == self@.has_undo(),
    {
        match self {
            NonBulkPieceEnum::Command(piece) => piece.undo_command.is_some(),
            NonBulkPieceEnum::File(_) => true,
            NonBulkPieceEnum::Manual(_) => true,
        }
    }
}

impl BulkPieceEnum {
    /// How a listing shows the piece.
    pub fn to_text(&self) -> (text: String)
        ensures
            text@ == self@.text(),
    {
        match self {
            BulkPieceEnum::Apt(piece) => piece.to_text(),
        }
    }
}

/// The bulk pieces of a list, each with what came with it, in order.
pub open spec fn apt_part<T>(pieces: Seq<(&PieceEnum, T)>) -> Seq<(&Apt, T)>
    decreases pieces.len(),
{
    if pieces.len() == 0 {
        Seq::empty()
    } else {
        let rest = apt_part(pieces.drop_last());
        match pieces.last().0 {
            PieceEnum::Bulk(BulkPieceEnum::Apt(piece)) => rest.push((piece, pieces.last().1)),
            PieceEnum::NonBulk(_) => rest,
        }
    }
}

/// The pieces of a list that are not bulk, each with what came with it, in
/// order.
pub open spec fn non_bulk_part<T>(pieces: Seq<(&PieceEnum, T)>) -> Seq<(&NonBulkPieceEnum, T)>
    decreases pieces.len(),
{
    if pieces.len() == 0 {
        Seq::empty()
    } else {
        let rest = non_bulk_part(pieces.drop_last());
        match pieces.last().0 {
            PieceEnum::Bulk(_) => rest,
            PieceEnum::NonBulk(piece) => rest.push((piece, pieces.last().1)),
        }
    }
}

/// What the host is asked to carry out in one go.
#[derive(Debug, PartialEq, Eq)]
pub enum Work {
    /// All of these packages, as one batch that succeeds or fails as a whole.
    Apt(Vec<Apt>),
    /// This one piece.
    NonBulk(NonBulkPieceEnum),
}

/// One step of work for the host: to execute what `work` names, or to undo it.
#[derive(Debug, PartialEq, Eq)]
pub struct Job {
    pub undo: bool,
    pub work: Work,
}

/// A step of work as plain values.
pub enum WorkView {
    Apt(Seq<PieceView>),
    NonBulk(PieceView),
}

/// A job as plain values.
pub struct JobView {
    pub undo: bool,
    pub work: WorkView,
}

/// The pieces of a batch as plain values.
pub open spec fn batch_view(batch: Seq<Apt>) -> Seq<PieceView> {
    Seq::new(batch.len(), |i: int| batch[i]@)
}

impl View for Work {
    type V = WorkView;

    open spec fn view(&self) -> WorkView {
        match self {
            Work::Apt(batch) => WorkView::Apt(batch_view(batch@)),
            Work::NonBulk(piece) => WorkView::NonBulk(piece@),
        }
    }
}

impl View for Job {
    type V = JobView;

    open spec fn view(&self) -> JobView {
        JobView { undo: self.undo, work: self.work@ }
    }
}

impl Clone for Work {
    fn clone(&self) -> (copy: Self)
        ensures
            copy@ == self@,
    {
        match self {
            Work::Apt(batch) => {
                let mut copy: Vec<Apt> = Vec::new();
                let mut i: usize = 0;
                while i < batch.len()
                    invariant
                        i <= batch.len(),
                        copy@.len() == i,
                        forall|j: int| 0 <= j < i ==> (#[trigger] copy@[j])@ == batch@[j]@,
                    decreases batch.len() - i,
                {
                    copy.push(batch[i].clone());
                    i += 1;
                }
                proof {
                    assert(batch_view(copy@) =~= batch_view(batch@));
                }
                Work::Apt(copy)
            },
            Work::NonBulk(piece) => Work::NonBulk(piece.clone()),
        }
    }
}

impl Clone for Job {
    fn clone(&self) -> (copy: Self)
        ensures
            copy@ == self@,
    {
        Job { undo: self.undo, work: self.work.clone() }
    }
}

impl JobView {
    /// Whether the host can be asked to do the job: it cannot undo a piece
    /// that has no undo action.
    pub open spec fn is_defined(self) -> bool {
        self.undo ==> (self.work matches WorkView::NonBulk(piece) ==> piece.has_undo())
    }
}

impl Job {
    /// Whether the host can be asked to do the job.
    pub fn is_defined(&self) -> (defined: bool)
        ensures
            defined == self@.is_defined(),
    {
        if self.undo {
            match &self.work {
                Work::Apt(_) => true,
                Work::NonBulk(piece) => piece.has_undo(),
            }
        } else {
            true
        }
    }
}

/// What came with each piece of a list.
pub open spec fn tags_of<P, T>(pieces: Seq<(P, T)>) -> Seq<T> {
    Seq::new(pieces.len(), |i: int| pieces[i].1)
}

/// The first step of work for a list of pieces that are all due, and what came
/// with the pieces that the step covers: the bulk pieces as one batch if there
/// are any, else the first of the others, else nothing.
pub open spec fn first_work<T>(pieces: Seq<(&PieceEnum, T)>) -> Option<(WorkView, Seq<T>)> {
    let batch = apt_part(pieces);
    let singles = non_bulk_part(pieces);
    if batch.len() > 0 {
        Some((WorkView::Apt(Seq::new(batch.len(), |i: int| batch[i].0@)), tags_of(batch)))
    } else if singles.len() > 0 {
        Some((WorkView::NonBulk(singles[0].0@), seq![singles[0].1]))
    } else {
        None
    }
}

/// Whether `job` with `covered` is the first step of work for `pieces` in a
/// run that executes (`undo` false) or undoes (`undo` true), and none in a
/// dry run.
pub open spec fn is_first_job<T>(
    job: Option<(Job, Vec<T>)>,
    pieces: Seq<(&PieceEnum, T)>,
    undo: bool,
    dry_run: bool,
) -> bool {
    match job {
        Some((j, covered)) => !dry_run && j.undo == undo && first_work(pieces) == Some(
            (j.work@, covered@),
        ),
        None => dry_run || first_work(pieces).is_none(),
    }
}

/// The package that a command line installs, where the line is one of the
/// plain forms of `apt install`.
pub open spec fn autodetected_package(value: Seq<Seq<char>>) -> Option<Seq<char>> {
    if value.len() == 3 && value[0] == "apt"@ && value[1] == "install"@ {
        Some(value[2])
    } else if value.len() == 4 && value[0] == "apt"@ && value[1] == "install"@ && value[3]
        == "-y"@ {
        Some(value[2])
    } else if value.len() == 4 && value[0] == "apt"@ && value[1] == "install"@ && value[2]
        == "-y"@ {
        Some(value[3])
    } else if value.len() == 4 && value[0] == "apt"@ && value[1] == "-y"@ && value[2]
        == "install"@ {
        Some(value[3])
    } else {
        None
    }
}

/// The piece of a given kind that a value declares, or why it declares none.
pub open spec fn known_piece(kind: Piece, value: Seq<Seq<char>>) -> Result<PieceView, Error> {
    match kind {
        Piece::Apt => if value.len() == 1 {
            Ok(PieceView::Apt { package: value[0] })
        } else {
            Err(Error::ExpectedSingleValue)
        },
        Piece::Command => match parsed_value(value) {
            Some(command) => Ok(PieceView::Command { command, undo_command: None }),
            None => Err(Error::UnclosedQuote),
        },
        Piece::File => if value.len() != 1 {
            Err(Error::ExpectedSingleValue)
        } else if !is_absolute(value[0]) {
            Err(Error::NotAbsolute)
        } else {
            Ok(PieceView::File { location: value[0], expected_previous_content: None })
        },
        Piece::Manual => Ok(PieceView::Manual { message: joined(value, " "@) }),
    }
}

/// The piece that a value declares when no kind is given: a package where the
/// value is a plain `apt install`, else a command.
pub open spec fn detected_piece(value: Seq<Seq<char>>) -> Result<PieceView, Error> {
    match autodetected_package(value) {
        Some(package) => Ok(PieceView::Apt { package }),
        None => known_piece(Piece::Command, value),
    }
}

/// The piece that the arguments of `add` declare.
pub open spec fn declared_piece(kind: Option<Piece>, value: Seq<Seq<char>>) -> Result<
    PieceView,
    Error,
> {
    match kind {
        Some(k) => known_piece(k, value),
        None => detected_piece(value),
    }
}

/// Whether `piece` is what `declared` says: the same piece, or the same error.
pub open spec fn is_declared(piece: Result<PieceEnum, Error>, declared: Result<PieceView, Error>) -> bool {
    match piece {
        Ok(p) => declared == Ok::<PieceView, Error>(p@) && p@.wf(),
        Err(e) => declared == Err::<PieceView, Error>(e),
    }
}

impl PieceEnum {
    /// Sorts pieces by how they are executed: those that go in one batch, and
    /// those that go one by one. Each piece keeps what came with it, and each
    /// list keeps the order of `pieces`.
    pub fn sort_pieces<T>(
        pieces: Vec<(&PieceEnum, T)>,
    ) -> (sorted: (Vec<(&Apt, T)>, Vec<(&NonBulkPieceEnum, T)>))
        ensures
            sorted.0@ == apt_part(pieces@),
            sorted.1@ == non_bulk_part(pieces@),
    {
        let mut apt: Vec<(&Apt, T)> = Vec::new();
        let mut non_bulk: Vec<(&NonBulkPieceEnum, T)> = Vec::new();
        let ghost all = pieces@;
        for piece in it: pieces
            invariant
                it.seq() == all,
                apt@ == apt_part(all.take(it.index() as int)),
                non_bulk@ == non_bulk_part(all.take(it.index() as int)),
        {
            proof {
                let next = all.take(it.index() + 1);
                assert(next.drop_last() =~= all.take(it.index() as int));
                assert(next.last() == piece);
            }
            match piece {
                (PieceEnum::Bulk(BulkPieceEnum::Apt(p)), tag) => apt.push((p, tag)),
                (PieceEnum::NonBulk(p), tag) => non_bulk.push((p, tag)),
            }
        }
        proof {
            assert(all.take(all.len() as int) =~= all);
        }
        (apt, non_bulk)
    }

    /// The piece that the arguments declare.
    pub fn from_cli(args: &AddArgs) -> (piece: Result<Self, Error>)
        ensures
            is_declared(piece, declared_piece(args.piece, args.value.deep_view())),
    {
        match args.piece {
            None => Self::from_cli_autodetect(args),
            Some(kind) => Self::from_cli_known(kind, args),
        }
    }

    fn from_cli_known(kind: Piece, args: &AddArgs) -> (piece: Result<Self, Error>)
        ensures
            is_declared(piece, known_piece(kind, args.value.deep_view())),
    {
        proof {
            if args.value@.len() == 1 {
                assert(args.value.deep_view()[0] == args.value@[0]@);
            }
        }
        match kind {
            Piece::Apt => match Apt::from_cli(args) {
                Ok(piece) => Ok(PieceEnum::Bulk(BulkPieceEnum::Apt(piece))),
                Err(e) => Err(e),
            },
            Piece::Command => match Command::from_cli(args) {
                Ok(piece) => Ok(PieceEnum::NonBulk(NonBulkPieceEnum::Command(piece))),
                Err(e) => Err(e),
            },
            Piece::File => match File::from_cli(args) {
                Ok(piece) => Ok(PieceEnum::NonBulk(NonBulkPieceEnum::File(piece))),
                Err(e) => Err(e),
            },
            Piece::Manual => Ok(PieceEnum::NonBulk(NonBulkPieceEnum::Manual(Manual::from_cli(args)))),
        }
    }

    fn from_cli_autodetect(args: &AddArgs) -> (piece: Result<Self, Error>)
        ensures
            is_declared(piece, detected_piece(args.value.deep_view())),
    {
        let value = &args.value;
        proof {
            assert forall|i: int| 0 <= i < value@.len() implies #[trigger] value.deep_view()[i]
                == value@[i]@ by {}
        }
        let n = value.len();
        let mut package: Option<usize> = None;
        if (n == 3 || n == 4) && same_text(value[0].as_str(), "apt") {
            if same_text(value[1].as_str(), "install") {
                if n == 3 || same_text(value[3].as_str(), "-y") {
                    package = Some(2);
                } else if same_text(value[2].as_str(), "-y") {
                    package = Some(3);
                }
            } else if n == 4 && same_text(value[1].as_str(), "-y") && same_text(
                value[2].as_str(),
                "install",
            ) {
                package = Some(3);
            }
        }
        match package {
            Some(at) => Ok(
                PieceEnum::Bulk(
                    BulkPieceEnum::Apt(Apt::from_cli_autodetected(args, value[at].clone())),
                ),
            ),
            None => Self::from_cli_known(Piece::Command, args),
        }
    }

    /// The first step of work that executes `pieces`: the bulk pieces in one
    /// batch, and after them the others one by one in their order. Nothing is
    /// to be done in a dry run.
    pub fn execute_bulk<T>(
        pieces: Vec<(&PieceEnum, T)>,
        execution_data: &ExecutionData,
    ) -> (job: Option<(Job, Vec<T>)>)
        ensures
            is_first_job(job, pieces@, false, execution_data.dry_run),
    {
        Self::first_job(pieces, false, execution_data)
    }

    /// The first step of work that undoes `pieces`: the bulk pieces in one
    /// batch, and after them the others one by one in their order. Nothing is
    /// to be done in a dry run.
    pub fn undo_bulk<T>(
        pieces: Vec<(&PieceEnum, T)>,
        execution_data: &ExecutionData,
    ) -> (job: Option<(Job, Vec<T>)>)
        ensures
            is_first_job(job, pieces@, true, execution_data.dry_run),
    {
        Self::first_job(pieces, true, execution_data)
    }

    fn first_job<T>(
        pieces: Vec<(&PieceEnum, T)>,
        undo: bool,
        execution_data: &ExecutionData,
    ) -> (job: Option<(Job, Vec<T>)>)
        ensures
            is_first_job(job, pieces@, undo, execution_data.dry_run),
    {
        if execution_data.dry_run {
            return None;
        }
        let (apt, non_bulk) = Self::sort_pieces(pieces);
        match Self::batch_job(apt, undo) {
            Some(job) => Some(job),
            None => Self::single_job(non_bulk, undo),
        }
    }

    /// The job that takes all of `pieces` as one batch.
    fn batch_job<T>(pieces: Vec<(&Apt, T)>, undo: bool) -> (job: Option<(Job, Vec<T>)>)
        ensures
            match job {
                Some((j, covered)) => {
                    &&& pieces@.len() > 0
                    &&& j.undo == undo
                    &&& j.work@ == WorkView::Apt(Seq::new(pieces@.len(), |i: int| pieces@[i].0@))
                    &&& covered@ == tags_of(pieces@)
                },
                None => pieces@.len() == 0,
            },
    {
        if pieces.len() == 0 {
            return None;
        }
        let mut batch: Vec<Apt> = Vec::new();
        let mut covered: Vec<T> = Vec::new();
        let ghost all = pieces@;
        for piece in it: pieces
            invariant
                it.seq() == all,
                batch@.len() == it.index(),
                covered@ == tags_of(all.take(it.index() as int)),
                forall|i: int| 0 <= i < it.index() ==> (#[trigger] batch@[i])@ == all[i].0@,
        {
            let (apt, tag) = piece;
            batch.push(apt.clone());
            covered.push(tag);
            proof {
                assert(covered@ =~= tags_of(all.take(it.index() + 1)));
            }
        }
        proof {
            assert(all.take(all.len() as int) =~= all);
            assert(batch_view(batch@) =~= Seq::new(all.len(), |i: int| all[i].0@));
        }
        Some((Job { undo, work: Work::Apt(batch) }, covered))
    }

    /// The job that takes the first of `pieces`.
    fn single_job<T>(
        pieces: Vec<(&NonBulkPieceEnum, T)>,
        undo: bool,
    ) -> (job: Option<(Job, Vec<T>)>)
        ensures
            match job {
                Some((j, covered)) => {
                    &&& pieces@.len() > 0
                    &&& j.undo == undo
                    &&& j.work@ == WorkView::NonBulk(pieces@[0].0@)
                    &&& covered@ == seq![pieces@[0].1]
                },
                None => pieces@.len() == 0,
            },
    {
        if pieces.len() == 0 {
            return None;
        }
        let mut pieces = pieces;
        let (piece, tag) = pieces.remove(0);
        let mut covered: Vec<T> = Vec::new();
        covered.push(tag);
        Some((Job { undo, work: Work::NonBulk(piece.clone()) }, covered))
    }

    /// How a listing shows the piece.
    pub fn to_text(&self) -> (text: String)
        ensures
            text@ == self@.text(),
    {
        match self {
            PieceEnum::Bulk(piece) => piece.to_text(),
            PieceEnum::NonBulk(piece) => piece.to_text(),
        }
    }
}

} // verus!
