//! The scheduler: which job a machine is to carry out next, and how the
//! records are marked once a job has succeeded.

use crate::errors::{Error, ExecutionError};
use crate::execution_data::ExecutionData;
use crate::full_piece::{grown, lemma_applied, FullPiece, FullPieceView, Todo};
use crate::machine::Machine;
use crate::pieces::{apt_part, first_work, non_bulk_part, tags_of, Job, JobView, PieceEnum, WorkView};
use vstd::prelude::*;

verus! {

/// The records of a list as plain values.
pub open spec fn records_view(records: Seq<FullPiece>) -> Seq<FullPieceView> {
    Seq::new(records.len(), |i: int| records[i]@)
}

/// Whether every record of a list is well formed.
pub open spec fn all_wf(records: Seq<FullPieceView>) -> bool {
    forall|i: int| 0 <= i < records.len() ==> (#[trigger] records[i]).wf()
}

/// The positions among the first `n` records at which `todo` is due on
/// `machine`, in ascending order.
pub open spec fn due(records: Seq<FullPieceView>, machine: Machine, todo: Todo, n: int) -> Seq<int>
    decreases n,
{
    if n <= 0 {
        Seq::empty()
    } else {
        let rest = due(records, machine, todo, n - 1);
        if records[n - 1].todo(machine) == todo {
            rest.push(n - 1)
        } else {
            rest
        }
    }
}

/// Those of the positions at which the piece is bulk, or those at which it is
/// not, in the order given.
pub open spec fn of_kind(records: Seq<FullPieceView>, positions: Seq<int>, bulk: bool) -> Seq<int>
    decreases positions.len(),
{
    if positions.len() == 0 {
        Seq::empty()
    } else {
        let rest = of_kind(records, positions.drop_last(), bulk);
        if records[positions.last()].piece.is_bulk() == bulk {
            rest.push(positions.last())
        } else {
            rest
        }
    }
}

/// The todo that a run of one direction works on.
pub open spec fn direction(undo: bool) -> Todo {
    if undo {
        Todo::Undo
    } else {
        Todo::Execute
    }
}

/// The next step of work of one direction, and the positions of the records
/// that it covers. All bulk pieces that are due go first, as one batch; then
/// the others, one at a time in the order of the list.
pub open spec fn next_work(records: Seq<FullPieceView>, machine: Machine, undo: bool) -> Option<
    (WorkView, Seq<int>),
> {
    let all = due(records, machine, direction(undo), records.len() as int);
    let batch = of_kind(records, all, true);
    let singles = of_kind(records, all, false);
    if batch.len() > 0 {
        Some((WorkView::Apt(Seq::new(batch.len(), |k: int| records[batch[k]].piece)), batch))
    } else if singles.len() > 0 {
        Some((WorkView::NonBulk(records[singles[0]].piece), seq![singles[0]]))
    } else {
        None
    }
}

/// The positions that come with the pieces of a worklist.
pub open spec fn positions<P>(worklist: Seq<(P, usize)>) -> Seq<int> {
    Seq::new(worklist.len(), |k: int| worklist[k].1 as int)
}

/// The positions of a list, as numbers.
pub open spec fn as_positions(covered: Seq<usize>) -> Seq<int> {
    Seq::new(covered.len(), |k: int| covered[k] as int)
}

/// Whether each piece of a worklist is the piece of the record at the
/// position that comes with it.
pub open spec fn matches_records(
    worklist: Seq<(&PieceEnum, usize)>,
    records: Seq<FullPieceView>,
) -> bool {
    forall|k: int|
        0 <= k < worklist.len() ==> (#[trigger] worklist[k]).1 < records.len() && worklist[k].0@
            == records[worklist[k].1 as int].piece
}

/// The next job on `machine` and the positions of the records that it covers:
/// what is to be executed goes before what is to be undone.
pub open spec fn next_job(records: Seq<FullPieceView>, machine: Machine) -> Option<
    (JobView, Seq<int>),
> {
    match next_work(records, machine, false) {
        Some((work, covered)) => Some((JobView { undo: false, work }, covered)),
        None => match next_work(records, machine, true) {
            Some((work, covered)) => Some((JobView { undo: true, work }, covered)),
            None => None,
        },
    }
}

/// The records once the next job has succeeded: every record that the job
/// covers is marked, and no other.
pub open spec fn completed(records: Seq<FullPieceView>, machine: Machine) -> Seq<FullPieceView> {
    match next_job(records, machine) {
        Some((_, covered)) => Seq::new(
            records.len(),
            |i: int|
                if covered.contains(i) {
                    records[i].applied(machine)
                } else {
                    records[i]
                },
        ),
        None => records,
    }
}

/// The records once everything that is due on `machine` is marked.
pub open spec fn all_applied(records: Seq<FullPieceView>, machine: Machine) -> Seq<FullPieceView> {
    Seq::new(records.len(), |i: int| records[i].applied(machine))
}

/// What the scheduler tells its caller.
#[derive(Debug, PartialEq, Eq)]
pub enum Step {
    /// Carry out this job on the host and come back with how it went.
    Run(Job),
    /// The run is over, with this result.
    Finished(Result<(), Error>),
}

/// A step as plain values.
pub enum StepView {
    Run(JobView),
    Finished(Result<(), Error>),
}

impl View for Step {
    type V = StepView;

    open spec fn view(&self) -> StepView {
        match self {
            Step::Run(job) => StepView::Run(job@),
            Step::Finished(result) => StepView::Finished(*result),
        }
    }
}

/// One step of a run on `machine`: the records after it, and what the
/// scheduler says. `last` is how the job went that the step before handed out,
/// and `None` at the start of the run.
///
/// A dry run changes nothing and is over at once. A job that failed ends the
/// run with its error, and marks nothing. A job that succeeded marks the
/// records that it covers. A test run then marks everything that is due and
/// hands out no job. Otherwise the next job is handed out; the run is over
/// when there is none, and fails when the job would undo a piece that has no
/// undo action.
pub open spec fn step_of(
    records: Seq<FullPieceView>,
    machine: Machine,
    dry_run: bool,
    test_run: bool,
    last: Option<Result<(), Error>>,
) -> (Seq<FullPieceView>, StepView) {
    if dry_run {
        (records, StepView::Finished(Ok(())))
    } else if last.is_some() && last.unwrap().is_err() {
        (records, StepView::Finished(last.unwrap()))
    } else {
        let marked = if last.is_some() {
            completed(records, machine)
        } else {
            records
        };
        if test_run {
            (all_applied(marked, machine), StepView::Finished(Ok(())))
        } else {
            match next_job(marked, machine) {
                None => (marked, StepView::Finished(Ok(()))),
                Some((job, _)) => if job.is_defined() {
                    (marked, StepView::Run(job))
                } else {
                    (
                        marked,
                        StepView::Finished(
                            Err(Error::ExecutionFailure(ExecutionError::UndefinedUndo)),
                        ),
                    )
                },
            }
        }
    }
}

impl FullPiece {
    /// The pieces that are to be executed on `machine`, and those that are to be
    /// undone, each list in the order of the records and each piece with the
    /// position of its record.
    pub fn get_todo<'a>(
        pieces: &'a Vec<FullPiece>,
        machine: &Machine,
    ) -> (lists: (Vec<(&'a PieceEnum, usize)>, Vec<(&'a PieceEnum, usize)>))
        requires
            all_wf(records_view(pieces@)),
        ensures
            positions(lists.0@) == due(
                records_view(pieces@),
                *machine,
                Todo::Execute,
                pieces@.len() as int,
            ),
            positions(lists.1@) == due(
                records_view(pieces@),
                *machine,
                Todo::Undo,
                pieces@.len() as int,
            ),
            matches_records(lists.0@, records_view(pieces@)),
            matches_records(lists.1@, records_view(pieces@)),
    {
        let mut to_execute: Vec<(&PieceEnum, usize)> = Vec::new();
        let mut to_undo: Vec<(&PieceEnum, usize)> = Vec::new();
        let ghost records = records_view(pieces@);
        let mut i: usize = 0;
        while i < pieces.len()
            invariant
                i <= pieces.len(),
                records == records_view(pieces@),
                all_wf(records),
                positions(to_execute@) == due(records, *machine, Todo::Execute, i as int),
                positions(to_undo@) == due(records, *machine, Todo::Undo, i as int),
                matches_records(to_execute@, records),
                matches_records(to_undo@, records),
            decreases pieces.len() - i,
        {
            let ghost before_execute = to_execute@;
            let ghost before_undo = to_undo@;
            assert(records[i as int].wf());
            match pieces[i].todo(machine) {
                Todo::Noop => {},
                Todo::Execute => {
                    to_execute.push((pieces[i].piece(), i));
                    proof {
                        assert(positions(to_execute@) =~= positions(before_execute).push(i as int));
                    }
                },
                Todo::Undo => {
                    to_undo.push((pieces[i].piece(), i));
                    proof {
                        assert(positions(to_undo@) =~= positions(before_undo).push(i as int));
                    }
                },
            }
            i += 1;
        }
        (to_execute, to_undo)
    }

    /// The next job on `machine`, with the positions of the records that it
    /// covers.
    fn current_job(
        pieces: &Vec<FullPiece>,
        machine: &Machine,
        execution_data: &ExecutionData,
    ) -> (job: Option<(Job, Vec<usize>)>)
        requires
            all_wf(records_view(pieces@)),
            !execution_data.dry_run,
        ensures
            match job {
                Some((j, covered)) => next_job(records_view(pieces@), *machine) == Some(
                    (j@, as_positions(covered@)),
                ),
                None => next_job(records_view(pieces@), *machine).is_none(),
            },
            job matches Some((_, covered)) ==> forall|k: int|
                0 <= k < covered@.len() ==> #[trigger] covered@[k] < pieces@.len(),
    {
        let ghost records = records_view(pieces@);
        let (to_execute, to_undo) = Self::get_todo(pieces, machine);
        proof {
            lemma_first_work(to_execute@, records, *machine, false);
            lemma_first_work(to_undo@, records, *machine, true);
        }
        match PieceEnum::execute_bulk(to_execute, execution_data) {
            Some(job) => Some(job),
            None => PieceEnum::undo_bulk(to_undo, execution_data),
        }
    }

    /// Marks the records at the positions in `covered`.
    fn mark(pieces: &mut Vec<FullPiece>, covered: &Vec<usize>, machine: &Machine)
        requires
            all_wf(records_view(old(pieces)@)),
            forall|k: int| 0 <= k < covered@.len() ==> #[trigger] covered@[k] < old(pieces)@.len(),
        ensures
            records_view(final(pieces)@) == Seq::new(
                old(pieces)@.len(),
                |i: int|
                    if as_positions(covered@).contains(i) {
                        old(pieces)@[i]@.applied(*machine)
                    } else {
                        old(pieces)@[i]@
                    },
            ),
            all_wf(records_view(final(pieces)@)),
    {
        let ghost before = records_view(pieces@);
        let mut k: usize = 0;
        while k < covered.len()
            invariant
                k <= covered.len(),
                before.len() == pieces@.len(),
                all_wf(before),
                all_wf(records_view(pieces@)),
                forall|j: int| 0 <= j < covered@.len() ==> #[trigger] covered@[j] < pieces@.len(),
                forall|i: int|
                    0 <= i < before.len() ==> (#[trigger] pieces@[i])@ == (if as_positions(
                        covered@,
                    ).take(k as int).contains(i) {
                        before[i].applied(*machine)
                    } else {
                        before[i]
                    }),
            decreases covered.len() - k,
        {
            let at = covered[k];
            let ghost was = records_view(pieces@);
            assert(was[at as int].wf());
            assert(before[at as int].wf());
            proof {
                lemma_applied(before[at as int], *machine);
            }
            pieces[at].complete(machine);
            proof {
                let now = as_positions(covered@).take(k + 1);
                let then = as_positions(covered@).take(k as int);
                assert(now =~= then.push(at as int));
                assert forall|i: int| 0 <= i < before.len() implies (#[trigger] pieces@[i])@ == (
                if now.contains(i) {
                    before[i].applied(*machine)
                } else {
                    before[i]
                }) by {
                    if i == at {
                        assert(now[k as int] == i);
                    } else {
                        assert(pieces@[i]@ == was[i]);
                        if then.contains(i) {
                            let j = choose|j: int| 0 <= j < then.len() && then[j] == i;
                            assert(now[j] == i);
                        }
                        if now.contains(i) {
                            let j = choose|j: int| 0 <= j < now.len() && now[j] == i;
                            assert(then[j] == i);
                        }
                    }
                }
                assert forall|i: int| 0 <= i < pieces@.len() implies (#[trigger] records_view(
                    pieces@,
                )[i]).wf() by {
                    if i != at {
                        assert(pieces@[i]@ == was[i]);
                    }
                }
            }
            k += 1;
        }
        proof {
            assert(as_positions(covered@).take(covered@.len() as int) =~= as_positions(covered@));
            assert(records_view(pieces@) =~= Seq::new(
                before.len(),
                |i: int|
                    if as_positions(covered@).contains(i) {
                        before[i].applied(*machine)
                    } else {
                        before[i]
                    },
            ));
        }
    }

    /// Marks every record on which something is due.
    fn mark_all(pieces: &mut Vec<FullPiece>, machine: &Machine)
        requires
            all_wf(records_view(old(pieces)@)),
        ensures
            records_view(final(pieces)@) == all_applied(records_view(old(pieces)@), *machine),
            all_wf(records_view(final(pieces)@)),
    {
        let ghost before = records_view(pieces@);
        let mut i: usize = 0;
        while i < pieces.len()
            invariant
                i <= pieces.len(),
                before.len() == pieces@.len(),
                all_wf(before),
                forall|j: int| 0 <= j < i ==> (#[trigger] pieces@[j])@ == before[j].applied(*machine),
                forall|j: int| i <= j < before.len() ==> (#[trigger] pieces@[j])@ == before[j],
            decreases pieces.len() - i,
        {
            assert(before[i as int].wf());
            pieces[i].complete(machine);
            i += 1;
        }
        proof {
            assert(records_view(pieces@) =~= all_applied(before, *machine));
            assert forall|j: int| 0 <= j < pieces@.len() implies (#[trigger] records_view(
                pieces@,
            )[j]).wf() by {
                assert(before[j].wf());
                lemma_applied(before[j], *machine);
            }
        }
    }

    /// One step of a run that brings `machine` up to date with `pieces`.
    ///
    /// The caller starts a run with `last` absent. Whenever the step is `Run`,
    /// the caller carries the job out on the host and calls again with how it
    /// went and the same other arguments, until the step is `Finished`.
    /// Records are marked only for jobs that succeeded, so that a run that
    /// fails part of the way has recorded everything that was done before.
    pub fn do_todo(
        pieces: &mut Vec<FullPiece>,
        machine: &Machine,
        execution_data: &ExecutionData,
        last: Option<Result<(), Error>>,
    ) -> (step: Step)
        requires
            all_wf(records_view(old(pieces)@)),
        ensures
            (records_view(final(pieces)@), step@) == step_of(
                records_view(old(pieces)@),
                *machine,
                execution_data.dry_run,
                execution_data.test_run,
                last,
            ),
            all_wf(records_view(final(pieces)@)),
    {
        let ghost before = records_view(pieces@);
        if execution_data.dry_run {
            return Step::Finished(Ok(()));
        }
        match last {
            Some(Err(e)) => {
                return Step::Finished(Err(e));
            },
            Some(Ok(())) => {
                match Self::current_job(pieces, machine, execution_data) {
                    Some((_, covered)) => {
                        Self::mark(pieces, &covered, machine);
                    },
                    None => {},
                }
                assert(records_view(pieces@) =~= completed(before, *machine));
            },
            None => {},
        }
        if execution_data.test_run {
            Self::mark_all(pieces, machine);
            return Step::Finished(Ok(()));
        }
        match Self::current_job(pieces, machine, execution_data) {
            None => Step::Finished(Ok(())),
            Some((job, _)) => {
                if job.is_defined() {
                    Step::Run(job)
                } else {
                    Step::Finished(Err(Error::ExecutionFailure(ExecutionError::UndefinedUndo)))
                }
            },
        }
    }
}

/// Sorting a worklist by kind sorts the positions that come with it.
proof fn lemma_sorted(worklist: Seq<(&PieceEnum, usize)>, records: Seq<FullPieceView>)
    requires
        matches_records(worklist, records),
    ensures
        positions(apt_part(worklist)) == of_kind(records, positions(worklist), true),
        positions(non_bulk_part(worklist)) == of_kind(records, positions(worklist), false),
        forall|k: int|
            0 <= k < apt_part(worklist).len() ==> (#[trigger] apt_part(worklist)[k]).0@
                == records[apt_part(worklist)[k].1 as int].piece,
        forall|k: int|
            0 <= k < non_bulk_part(worklist).len() ==> (#[trigger] non_bulk_part(worklist)[k]).0@
                == records[non_bulk_part(worklist)[k].1 as int].piece,
    decreases worklist.len(),
{
    if worklist.len() == 0 {
        assert(positions(apt_part(worklist)) =~= of_kind(records, positions(worklist), true));
        assert(positions(non_bulk_part(worklist)) =~= of_kind(records, positions(worklist), false));
    } else {
        let front = worklist.drop_last();
        let last = worklist.last();
        assert(matches_records(front, records)) by {
            assert forall|k: int| 0 <= k < front.len() implies (#[trigger] front[k]).1
                < records.len() && front[k].0@ == records[front[k].1 as int].piece by {
                assert(front[k] == worklist[k]);
            }
        }
        lemma_sorted(front, records);
        assert(positions(worklist).drop_last() =~= positions(front));
        assert(positions(worklist).last() == last.1 as int);
        assert(worklist[worklist.len() - 1] == last);
        assert(last.0@ == records[last.1 as int].piece);
        assert(positions(apt_part(worklist)) =~= of_kind(records, positions(worklist), true));
        assert(positions(non_bulk_part(worklist)) =~= of_kind(records, positions(worklist), false));
    }
}

/// The first step of work for the worklist of one direction is the next step
/// of work of that direction.
proof fn lemma_first_work(
    worklist: Seq<(&PieceEnum, usize)>,
    records: Seq<FullPieceView>,
    machine: Machine,
    undo: bool,
)
    requires
        matches_records(worklist, records),
        positions(worklist) == due(records, machine, direction(undo), records.len() as int),
    ensures
        match first_work(worklist) {
            Some((work, covered)) => next_work(records, machine, undo) == Some(
                (work, as_positions(covered)),
            ) && forall|k: int| 0 <= k < covered.len() ==> #[trigger] covered[k] < records.len(),
            None => next_work(records, machine, undo).is_none(),
        },
{
    lemma_sorted(worklist, records);
    let batch = apt_part(worklist);
    let singles = non_bulk_part(worklist);
    if batch.len() > 0 {
        let at = of_kind(records, positions(worklist), true);
        assert(as_positions(tags_of(batch)) =~= positions(batch));
        assert(Seq::new(batch.len(), |i: int| batch[i].0@) =~= Seq::new(
            at.len(),
            |k: int| records[at[k]].piece,
        )) by {
            assert forall|i: int| 0 <= i < batch.len() implies batch[i].0@
                == records[at[i]].piece by {
                assert(positions(batch)[i] == batch[i].1 as int);
            }
        }
        assert forall|k: int| 0 <= k < tags_of(batch).len() implies #[trigger] tags_of(batch)[k]
            < records.len() by {
            assert(positions(batch)[k] == batch[k].1 as int);
            let at = of_kind(records, positions(worklist), true);
            lemma_of_kind(records, positions(worklist), true);
            lemma_due(records, machine, direction(undo), records.len() as int);
            assert(at.contains(at[k]));
        }
    } else if singles.len() > 0 {
        let at = of_kind(records, positions(worklist), false);
        assert(positions(singles)[0] == singles[0].1 as int);
        assert(as_positions(seq![singles[0].1]) =~= seq![at[0]]);
        lemma_of_kind(records, positions(worklist), false);
        lemma_due(records, machine, direction(undo), records.len() as int);
        assert(at.contains(at[0]));
    }
}

/// A position is due exactly if it is among the first `n` and the record at
/// it has that todo; and the positions ascend.
pub proof fn lemma_due(records: Seq<FullPieceView>, machine: Machine, todo: Todo, n: int)
    requires
        n <= records.len(),
    ensures
        forall|i: int|
            #[trigger] due(records, machine, todo, n).contains(i) <==> 0 <= i < n
                && records[i].todo(machine) == todo,
        forall|j: int, k: int|
            0 <= j < k < due(records, machine, todo, n).len() ==> #[trigger] due(
                records,
                machine,
                todo,
                n,
            )[j] < #[trigger] due(records, machine, todo, n)[k],
    decreases n,
{
    let all = due(records, machine, todo, n);
    if n > 0 {
        let rest = due(records, machine, todo, n - 1);
        lemma_due(records, machine, todo, n - 1);
        assert forall|j: int, k: int| 0 <= j < k < all.len() implies #[trigger] all[j]
            < #[trigger] all[k] by {
            if k < rest.len() {
                assert(all[j] == rest[j] && all[k] == rest[k]);
            } else {
                assert(all[j] == rest[j]);
                assert(rest.contains(rest[j]));
            }
        }
        assert forall|i: int| #[trigger] all.contains(i) <==> 0 <= i < n && records[i].todo(machine)
            == todo by {
            if all.contains(i) {
                let k = choose|k: int| 0 <= k < all.len() && all[k] == i;
                if k < rest.len() {
                    assert(rest[k] == i);
                    assert(rest.contains(i));
                }
            }
            if 0 <= i < n && records[i].todo(machine) == todo {
                if i == n - 1 {
                    assert(all[all.len() - 1] == i);
                } else {
                    assert(rest.contains(i));
                    let k = choose|k: int| 0 <= k < rest.len() && rest[k] == i;
                    assert(all[k] == i);
                }
            }
        }
    } else {
        assert forall|i: int| #[trigger] all.contains(i) <==> 0 <= i < n && records[i].todo(machine)
            == todo by {
            if all.contains(i) {
                let k = choose|k: int| 0 <= k < all.len() && all[k] == i;
            }
        }
    }
}

/// A position is of a kind exactly if it is one of the positions given and
/// the piece at it is of that kind; and ascending positions stay ascending.
pub proof fn lemma_of_kind(records: Seq<FullPieceView>, positions: Seq<int>, bulk: bool)
    ensures
        forall|p: int|
            #[trigger] of_kind(records, positions, bulk).contains(p) <==> positions.contains(p)
                && records[p].piece.is_bulk() == bulk,
        (forall|j: int, k: int|
            0 <= j < k < positions.len() ==> #[trigger] positions[j] < #[trigger] positions[k])
            ==> (forall|j: int, k: int|
            0 <= j < k < of_kind(records, positions, bulk).len() ==> #[trigger] of_kind(
                records,
                positions,
                bulk,
            )[j] < #[trigger] of_kind(records, positions, bulk)[k]),
    decreases positions.len(),
{
    let all = of_kind(records, positions, bulk);
    if positions.len() > 0 {
        let front = positions.drop_last();
        let rest = of_kind(records, front, bulk);
        lemma_of_kind(records, front, bulk);
        assert forall|p: int| #[trigger] all.contains(p) <==> positions.contains(p)
            && records[p].piece.is_bulk() == bulk by {
            if all.contains(p) {
                let k = choose|k: int| 0 <= k < all.len() && all[k] == p;
                if k < rest.len() {
                    assert(rest[k] == p);
                    assert(rest.contains(p));
                    let j = choose|j: int| 0 <= j < front.len() && front[j] == p;
                    assert(positions[j] == p);
                } else {
                    assert(positions[positions.len() - 1] == p);
                }
            }
            if positions.contains(p) && records[p].piece.is_bulk() == bulk {
                let j = choose|j: int| 0 <= j < positions.len() && positions[j] == p;
                if j == positions.len() - 1 {
                    assert(all[all.len() - 1] == p);
                } else {
                    assert(front[j] == p);
                    assert(rest.contains(p));
                    let k = choose|k: int| 0 <= k < rest.len() && rest[k] == p;
                    assert(all[k] == p);
                }
            }
        }
        if forall|j: int, k: int|
            0 <= j < k < positions.len() ==> #[trigger] positions[j] < #[trigger] positions[k] {
            assert forall|j: int, k: int| 0 <= j < k < front.len() implies #[trigger] front[j]
                < #[trigger] front[k] by {
                assert(front[j] == positions[j] && front[k] == positions[k]);
            }
            assert forall|j: int, k: int| 0 <= j < k < all.len() implies #[trigger] all[j]
                < #[trigger] all[k] by {
                if k < rest.len() {
                    assert(all[j] == rest[j] && all[k] == rest[k]);
                } else {
                    assert(all[j] == rest[j]);
                    assert(rest.contains(rest[j]));
                    let i = choose|i: int| 0 <= i < front.len() && front[i] == rest[j];
                    assert(positions[i] < positions[positions.len() - 1]);
                }
            }
        }
    } else {
        assert forall|p: int| #[trigger] all.contains(p) <==> positions.contains(p)
            && records[p].piece.is_bulk() == bulk by {
            if all.contains(p) {
                let k = choose|k: int| 0 <= k < all.len() && all[k] == p;
            }
            if positions.contains(p) {
                let k = choose|k: int| 0 <= k < positions.len() && positions[k] == p;
            }
        }
    }
}

/// A batch is all or nothing. The job that is a batch covers every record
/// whose piece is bulk and due in the job's direction, and no other record.
/// When the batch has succeeded each of them is marked; when it has failed
/// none is, and the failure ends the run.
pub proof fn lemma_batch_is_atomic(
    records: Seq<FullPieceView>,
    machine: Machine,
    test_run: bool,
    failure: Error,
)
    requires
        all_wf(records),
        next_job(records, machine) matches Some((job, _)) && job.work is Apt,
    ensures
        ({
            let (job, covered) = next_job(records, machine).unwrap();
            &&& forall|i: int|
                covered.contains(i) <==> 0 <= i < records.len() && records[i].piece.is_bulk()
                    && records[i].todo(machine) == direction(job.undo)
            &&& forall|i: int|
                covered.contains(i) ==> #[trigger] completed(records, machine)[i]
                    == records[i].applied(machine) && (if job.undo {
                    completed(records, machine)[i].undone_on.unwrap().contains(machine)
                } else {
                    completed(records, machine)[i].done_on.contains(machine)
                })
            &&& forall|i: int|
                0 <= i < records.len() && !covered.contains(i) ==> #[trigger] completed(
                    records,
                    machine,
                )[i] == records[i]
        }),
        step_of(records, machine, false, test_run, Some(Err(failure))) == (
            records,
            StepView::Finished(Err(failure)),
        ),
{
    let (job, covered) = next_job(records, machine).unwrap();
    let all = due(records, machine, direction(job.undo), records.len() as int);
    lemma_due(records, machine, direction(job.undo), records.len() as int);
    lemma_of_kind(records, all, true);
    lemma_of_kind(records, all, false);
    assert(covered == of_kind(records, all, true));
    assert forall|i: int| covered.contains(i) implies #[trigger] completed(records, machine)[i]
        == records[i].applied(machine) && (if job.undo {
        completed(records, machine)[i].undone_on.unwrap().contains(machine)
    } else {
        completed(records, machine)[i].done_on.contains(machine)
    }) by {
        let after = records[i].applied(machine);
        if job.undo {
            assert(after.undone_on.unwrap()[records[i].undone_on.unwrap().len() as int] == machine);
        } else {
            assert(after.done_on[records[i].done_on.len() as int] == machine);
        }
    }
}

/// Pieces that are not bulk make partial progress. The job that is a single
/// piece covers the first record, in the order of the list, whose piece is not
/// bulk and is due in the job's direction. When it has succeeded that record
/// is marked and no other; when it has failed no record is marked, so that
/// the records that were marked before stay marked and those behind it stay
/// due, and the failure ends the run.
pub proof fn lemma_singles_progress(
    records: Seq<FullPieceView>,
    machine: Machine,
    test_run: bool,
    failure: Error,
)
    requires
        all_wf(records),
        next_job(records, machine) matches Some((job, _)) && job.work is NonBulk,
    ensures
        ({
            let (job, covered) = next_job(records, machine).unwrap();
            let first = covered[0];
            &&& covered.len() == 1
            &&& 0 <= first < records.len()
            &&& job.work == WorkView::NonBulk(records[first].piece)
            &&& !records[first].piece.is_bulk()
            &&& records[first].todo(machine) == direction(job.undo)
            &&& forall|i: int|
                0 <= i < first ==> !(!records[i].piece.is_bulk() && records[i].todo(machine)
                    == direction(job.undo))
            &&& completed(records, machine)[first] == records[first].applied(machine)
            &&& forall|i: int|
                0 <= i < records.len() && i != first ==> #[trigger] completed(records, machine)[i]
                    == records[i]
        }),
        step_of(records, machine, false, test_run, Some(Err(failure))) == (
            records,
            StepView::Finished(Err(failure)),
        ),
{
    let (job, covered) = next_job(records, machine).unwrap();
    let all = due(records, machine, direction(job.undo), records.len() as int);
    let singles = of_kind(records, all, false);
    lemma_due(records, machine, direction(job.undo), records.len() as int);
    lemma_of_kind(records, all, false);
    assert(covered == seq![singles[0]]);
    let first = covered[0];
    assert(singles.contains(singles[0]));
    assert(all.contains(first));
    assert forall|i: int| 0 <= i < first implies !(!records[i].piece.is_bulk()
        && records[i].todo(machine) == direction(job.undo)) by {
        if !records[i].piece.is_bulk() && records[i].todo(machine) == direction(job.undo) {
            assert(all.contains(i));
            assert(singles.contains(i));
            let k = choose|k: int| 0 <= k < singles.len() && singles[k] == i;
            if k > 0 {
                assert(singles[0] < singles[k]);
            }
        }
    }
    assert(covered.contains(first));
    assert forall|i: int| 0 <= i < records.len() && i != first implies #[trigger] completed(
        records,
        machine,
    )[i] == records[i] by {
        if covered.contains(i) {
            let k = choose|k: int| 0 <= k < covered.len() && covered[k] == i;
        }
    }
}

/// Where nothing is due on a machine, a run on it hands out no job, changes no
/// record and ends well, in any mode.
pub proof fn lemma_nothing_due(
    records: Seq<FullPieceView>,
    machine: Machine,
    dry_run: bool,
    test_run: bool,
)
    requires
        forall|i: int| 0 <= i < records.len() ==> (#[trigger] records[i]).todo(machine) == Todo::Noop,
    ensures
        next_job(records, machine).is_none(),
        step_of(records, machine, dry_run, test_run, None) == (
            records,
            StepView::Finished(Ok(())),
        ),
{
    lemma_due(records, machine, Todo::Execute, records.len() as int);
    lemma_due(records, machine, Todo::Undo, records.len() as int);
    let executes = due(records, machine, Todo::Execute, records.len() as int);
    let undos = due(records, machine, Todo::Undo, records.len() as int);
    if executes.len() > 0 {
        assert(executes.contains(executes[0]));
    }
    if undos.len() > 0 {
        assert(undos.contains(undos[0]));
    }
    assert(executes =~= Seq::empty());
    assert(undos =~= Seq::empty());
    assert(all_applied(records, machine) =~= records);
}

/// A run that ends well leaves nothing due: after it, a second run on the
/// same machine changes no record and hands out no job.
pub proof fn lemma_run_is_idempotent(
    records: Seq<FullPieceView>,
    machine: Machine,
    test_run: bool,
    last: Option<Result<(), Error>>,
)
    requires
        all_wf(records),
        step_of(records, machine, false, test_run, last).1 == StepView::Finished(Ok(())),
    ensures
        ({
            let after = step_of(records, machine, false, test_run, last).0;
            &&& forall|i: int| 0 <= i < after.len() ==> (#[trigger] after[i]).todo(machine) == Todo::Noop
            &&& step_of(after, machine, false, test_run, None) == (after, StepView::Finished(Ok(())))
        }),
{
    let after = step_of(records, machine, false, test_run, last).0;
    let marked = if last.is_some() {
        completed(records, machine)
    } else {
        records
    };
    assert forall|i: int| 0 <= i < after.len() implies (#[trigger] after[i]).todo(machine)
        == Todo::Noop by {
        if test_run {
            lemma_completed_wf(records, machine);
            assert(marked[i].wf());
            lemma_applied(marked[i], machine);
        } else {
            assert(next_job(marked, machine).is_none());
            let t = marked[i].todo(machine);
            if t != Todo::Noop {
                let all = due(marked, machine, t, marked.len() as int);
                lemma_due(marked, machine, t, marked.len() as int);
                assert(all.contains(i));
                lemma_of_kind(marked, all, marked[i].piece.is_bulk());
                let kind = of_kind(marked, all, marked[i].piece.is_bulk());
                assert(kind.contains(i));
                assert(kind.len() > 0);
                assert(next_work(marked, machine, t == Todo::Undo).is_some());
            }
        }
    }
    lemma_nothing_due(after, machine, false, test_run);
}

/// Marking the records of the next job keeps every record well formed and
/// only adds machines.
pub proof fn lemma_completed_wf(records: Seq<FullPieceView>, machine: Machine)
    requires
        all_wf(records),
    ensures
        all_wf(completed(records, machine)),
        completed(records, machine).len() == records.len(),
        forall|i: int|
            0 <= i < records.len() ==> grown(records[i], #[trigger] completed(records, machine)[i]),
{
    assert forall|i: int| 0 <= i < records.len() implies (#[trigger] completed(
        records,
        machine,
    )[i]).wf() && grown(records[i], completed(records, machine)[i]) by {
        assert(records[i].wf());
        lemma_applied(records[i], machine);
    }
}

/// One step of a run only adds machines: every record keeps its place, its
/// piece and its comment, and `done_on` and `undone_on` lose nothing.
pub proof fn lemma_step_only_adds(
    records: Seq<FullPieceView>,
    machine: Machine,
    dry_run: bool,
    test_run: bool,
    last: Option<Result<(), Error>>,
)
    requires
        all_wf(records),
    ensures
        step_of(records, machine, dry_run, test_run, last).0.len() == records.len(),
        all_wf(step_of(records, machine, dry_run, test_run, last).0),
        forall|i: int|
            0 <= i < records.len() ==> grown(
                records[i],
                #[trigger] step_of(records, machine, dry_run, test_run, last).0[i],
            ),
{
    let after = step_of(records, machine, dry_run, test_run, last).0;
    lemma_completed_wf(records, machine);
    let marked = if last.is_some() {
        completed(records, machine)
    } else {
        records
    };
    assert forall|i: int| 0 <= i < records.len() implies (#[trigger] after[i]).wf() && grown(
        records[i],
        after[i],
    ) by {
        assert(records[i].wf());
        assert(marked[i].wf());
        lemma_applied(marked[i], machine);
        lemma_applied(records[i], machine);
    }
}

} // verus!
