use falconf::errors::{Error, ExecutionError};
use falconf::execution_data::ExecutionData;
use falconf::full_piece::{FullPiece, Todo};
use falconf::schedule::Step;
use falconf::machine::Machine;
use falconf::pieces::apt::Apt;
use falconf::pieces::command::Command;
use falconf::pieces::file::File;
use falconf::pieces::manual::Manual;
use falconf::pieces::{BulkPieceEnum, Job, NonBulkPieceEnum, PieceEnum, Work};

fn m(n: u128) -> Machine {
    Machine(n)
}

fn apt(package: &str) -> PieceEnum {
    PieceEnum::Bulk(BulkPieceEnum::Apt(Apt { package: package.to_string() }))
}

fn command(line: &str) -> PieceEnum {
    PieceEnum::NonBulk(NonBulkPieceEnum::Command(Command {
        command: line.to_string(),
        undo_command: None,
    }))
}

fn command_with_undo(line: &str, undo: &str) -> PieceEnum {
    PieceEnum::NonBulk(NonBulkPieceEnum::Command(Command {
        command: line.to_string(),
        undo_command: Some(undo.to_string()),
    }))
}

fn manual(message: &str) -> PieceEnum {
    PieceEnum::NonBulk(NonBulkPieceEnum::Manual(Manual { message: message.to_string() }))
}

fn done_on(piece: PieceEnum, machines: Vec<Machine>) -> FullPiece {
    FullPiece::from_parts(piece, None, machines, None, None).unwrap()
}

fn to_undo(piece: PieceEnum, done: Vec<Machine>, undone: Vec<Machine>) -> FullPiece {
    FullPiece::from_parts(piece, None, done, Some(undone), None).unwrap()
}

fn ctx(machine: Machine) -> ExecutionData {
    ExecutionData { file_dir: "/repo/files".to_string(), machine, dry_run: false, test_run: false }
}

fn failure() -> Error {
    Error::ExecutionFailure(ExecutionError::ProcessError(Some(1)))
}

/// Runs the scheduler to its end against a host that is played by `host`.
fn run<F: FnMut(&Job) -> Result<(), Error>>(
    pieces: &mut Vec<FullPiece>,
    machine: &Machine,
    execution_data: &ExecutionData,
    mut host: F,
) -> Result<(), Error> {
    let mut last = None;
    loop {
        match FullPiece::do_todo(pieces, machine, execution_data, last) {
            Step::Run(job) => last = Some(host(&job)),
            Step::Finished(result) => return result,
        }
    }
}

fn batch(undo: bool, packages: &[&str]) -> Job {
    Job {
        undo,
        work: Work::Apt(packages.iter().map(|p| Apt { package: p.to_string() }).collect()),
    }
}

fn single(undo: bool, piece: PieceEnum) -> Job {
    match piece {
        PieceEnum::NonBulk(p) => Job { undo, work: Work::NonBulk(p) },
        PieceEnum::Bulk(_) => unreachable!(),
    }
}

#[test]
fn batch_succeeds_as_a_whole() {
    let (m1, m2) = (m(1), m(2));
    let mut pieces =
        vec![done_on(apt("a"), vec![m1]), done_on(apt("b"), vec![m1]), done_on(apt("c"), vec![m1])];
    let step = FullPiece::do_todo(&mut pieces, &m2, &ctx(m2), None);
    assert_eq!(step, Step::Run(batch(false, &["a", "b", "c"])));
    // Nothing is marked while the batch runs.
    for p in &pieces {
        assert_eq!(p.done_on(), &vec![m1]);
    }
    let step = FullPiece::do_todo(&mut pieces, &m2, &ctx(m2), Some(Ok(())));
    assert_eq!(step, Step::Finished(Ok(())));
    for p in &pieces {
        assert_eq!(p.done_on(), &vec![m1, m2]);
    }
}

#[test]
fn batch_fails_as_a_whole() {
    let (m1, m2) = (m(1), m(2));
    let mut pieces =
        vec![done_on(apt("a"), vec![m1]), done_on(apt("b"), vec![m1]), done_on(apt("c"), vec![m1])];
    let step = FullPiece::do_todo(&mut pieces, &m2, &ctx(m2), None);
    assert_eq!(step, Step::Run(batch(false, &["a", "b", "c"])));
    let step = FullPiece::do_todo(&mut pieces, &m2, &ctx(m2), Some(Err(failure())));
    assert_eq!(step, Step::Finished(Err(failure())));
    for p in &pieces {
        assert_eq!(p.done_on(), &vec![m1]);
        assert_eq!(p.todo(&m2), Todo::Execute);
    }
}

#[test]
fn non_bulk_partial_progress() {
    let (m1, m2) = (m(1), m(2));
    let mut pieces = vec![
        done_on(command("A"), vec![m1]),
        done_on(command("B"), vec![m1]),
        done_on(command("C"), vec![m1]),
    ];
    let mut seen = vec![];
    let result = run(&mut pieces, &m2, &ctx(m2), |job| {
        seen.push(job.clone());
        if *job == single(false, command("B")) {
            Err(failure())
        } else {
            Ok(())
        }
    });
    assert_eq!(result, Err(failure()));
    assert_eq!(seen, vec![single(false, command("A")), single(false, command("B"))]);
    assert_eq!(pieces[0].done_on(), &vec![m1, m2]);
    assert_eq!(pieces[1].done_on(), &vec![m1]);
    assert_eq!(pieces[2].done_on(), &vec![m1]);
}

#[test]
fn test_atomic() {
    let (m1, m2) = (m(1), m(2));
    // Always succeeds, always fails.
    let mut pieces = vec![done_on(command("true"), vec![m1]), done_on(command("false"), vec![m1])];
    let result = run(&mut pieces, &m2, &ctx(m2), |job| match &job.work {
        Work::NonBulk(NonBulkPieceEnum::Command(c)) if c.command == "true" => Ok(()),
        _ => Err(failure()),
    });
    assert!(result.is_err());
    // The first one (true) was successfully marked as done
    assert!(pieces[0].done_on().contains(&m2));
    // The second one (false) wasn't marked as done
    assert!(!pieces[1].done_on().contains(&m2));
}

#[test]
fn jobs_come_in_order() {
    let (m1, m2) = (m(1), m(2));
    let mut pieces = vec![
        done_on(command("first"), vec![m1]),
        to_undo(command_with_undo("up", "down"), vec![m1, m2], vec![m1]),
        done_on(apt("a"), vec![m1]),
        done_on(manual("press the button"), vec![m1]),
        to_undo(apt("old"), vec![m2], vec![]),
        done_on(apt("b"), vec![]),
        done_on(apt("here already"), vec![m2]),
        to_undo(apt("older"), vec![m1, m2], vec![]),
        to_undo(manual("nothing to undo here"), vec![m1], vec![]),
    ];
    let mut seen = vec![];
    let result = run(&mut pieces, &m2, &ctx(m2), |job| {
        seen.push(job.clone());
        Ok(())
    });
    assert_eq!(result, Ok(()));
    assert_eq!(
        seen,
        vec![
            batch(false, &["a", "b"]),
            single(false, command("first")),
            single(false, manual("press the button")),
            batch(true, &["old", "older"]),
            single(true, command_with_undo("up", "down")),
        ]
    );
    for p in &pieces {
        assert_eq!(p.todo(&m2), Todo::Noop);
    }
    assert_eq!(pieces[0].done_on(), &vec![m1, m2]);
    assert_eq!(pieces[1].undone_on(), &Some(vec![m1, m2]));
    assert_eq!(pieces[4].undone_on(), &Some(vec![m2]));
    assert_eq!(pieces[5].done_on(), &vec![m2]);
    assert_eq!(pieces[6].done_on(), &vec![m2]);
    assert_eq!(pieces[8].done_on(), &vec![m1]);
    assert_eq!(pieces[8].undone_on(), &Some(vec![]));
}

#[test]
fn a_failed_batch_keeps_earlier_work() {
    let (m1, m2) = (m(1), m(2));
    let mut pieces = vec![
        done_on(command("first"), vec![m1]),
        to_undo(apt("old"), vec![m2], vec![]),
        done_on(apt("a"), vec![m1]),
    ];
    let result = run(&mut pieces, &m2, &ctx(m2), |job| if job.undo { Err(failure()) } else { Ok(()) });
    assert_eq!(result, Err(failure()));
    assert_eq!(pieces[0].done_on(), &vec![m1, m2]);
    assert_eq!(pieces[2].done_on(), &vec![m1, m2]);
    assert_eq!(pieces[1].undone_on(), &Some(vec![]));
}

#[test]
fn second_run_does_nothing() {
    let (m1, m2) = (m(1), m(2));
    let mut pieces = vec![
        done_on(command("first"), vec![m1]),
        done_on(apt("a"), vec![m1]),
        to_undo(apt("old"), vec![m1, m2], vec![m1]),
    ];
    assert_eq!(run(&mut pieces, &m2, &ctx(m2), |_| Ok(())), Ok(()));
    let after_first = pieces.clone();
    let mut calls = 0;
    assert_eq!(
        run(&mut pieces, &m2, &ctx(m2), |_| {
            calls += 1;
            Ok(())
        }),
        Ok(())
    );
    assert_eq!(calls, 0);
    assert_eq!(pieces, after_first);
}

#[test]
fn test_run_marks_without_running() {
    let (m1, m2) = (m(1), m(2));
    let mut pieces = vec![
        done_on(command("first"), vec![m1]),
        done_on(apt("a"), vec![m1]),
        to_undo(command("no undo known"), vec![m1, m2], vec![m1]),
    ];
    let ctx = ExecutionData { test_run: true, ..ctx(m2) };
    let step = FullPiece::do_todo(&mut pieces, &m2, &ctx, None);
    assert_eq!(step, Step::Finished(Ok(())));
    assert_eq!(pieces[0].done_on(), &vec![m1, m2]);
    assert_eq!(pieces[1].done_on(), &vec![m1, m2]);
    assert_eq!(pieces[2].undone_on(), &Some(vec![m1, m2]));
}

#[test]
fn dry_run_changes_nothing() {
    let (m1, m2) = (m(1), m(2));
    let mut pieces = vec![done_on(command("first"), vec![m1]), done_on(apt("a"), vec![m1])];
    let before = pieces.clone();
    let ctx = ExecutionData { dry_run: true, ..ctx(m2) };
    assert_eq!(FullPiece::do_todo(&mut pieces, &m2, &ctx, None), Step::Finished(Ok(())));
    assert_eq!(pieces, before);
    let both = ExecutionData { test_run: true, ..ctx };
    assert_eq!(FullPiece::do_todo(&mut pieces, &m2, &both, None), Step::Finished(Ok(())));
    assert_eq!(pieces, before);
}

#[test]
fn undefined_undo_is_an_error() {
    let (m1, m2) = (m(1), m(2));
    let mut pieces = vec![
        to_undo(command("no undo known"), vec![m1, m2], vec![m1]),
        to_undo(manual("later"), vec![m1, m2], vec![m1]),
    ];
    let step = FullPiece::do_todo(&mut pieces, &m2, &ctx(m2), None);
    assert_eq!(step, Step::Finished(Err(Error::ExecutionFailure(ExecutionError::UndefinedUndo))));
    assert_eq!(pieces[0].undone_on(), &Some(vec![m1]));
    assert_eq!(pieces[1].undone_on(), &Some(vec![m1]));
}

#[test]
fn empty_ledger_is_finished_at_once() {
    let mut pieces: Vec<FullPiece> = vec![];
    assert_eq!(FullPiece::do_todo(&mut pieces, &m(1), &ctx(m(1)), None), Step::Finished(Ok(())));
    assert_eq!(FullPiece::do_todo(&mut pieces, &m(1), &ctx(m(1)), Some(Ok(()))), Step::Finished(Ok(())));
}

#[test]
fn get_todo_lists_what_is_due() {
    let (m1, m2) = (m(1), m(2));
    let pieces = vec![
        done_on(command("first"), vec![m1]),
        to_undo(apt("old"), vec![m2], vec![]),
        done_on(apt("here"), vec![m2]),
        done_on(apt("a"), vec![]),
    ];
    let (to_execute, to_undo) = FullPiece::get_todo(&pieces, &m2);
    assert_eq!(to_execute, vec![(&command("first"), 0), (&apt("a"), 3)]);
    assert_eq!(to_undo, vec![(&apt("old"), 1)]);
}

#[test]
fn sort_pieces_keeps_order_and_tags() {
    let a = apt("a");
    let b = command("b");
    let c = apt("c");
    let d = manual("d");
    let file = PieceEnum::NonBulk(NonBulkPieceEnum::File(File {
        location: "/e".to_string(),
        expected_previous_content: None,
    }));
    let (bulk, non_bulk) =
        PieceEnum::sort_pieces(vec![(&a, "1"), (&b, "2"), (&c, "3"), (&d, "4"), (&file, "5")]);
    assert_eq!(
        bulk,
        vec![(&Apt { package: "a".to_string() }, "1"), (&Apt { package: "c".to_string() }, "3")]
    );
    let names: Vec<&str> = non_bulk.iter().map(|p| p.1).collect();
    assert_eq!(names, vec!["2", "4", "5"]);
    assert_eq!(PieceEnum::NonBulk(non_bulk[0].0.clone()), b);
    assert_eq!(PieceEnum::NonBulk(non_bulk[1].0.clone()), d);
    assert_eq!(PieceEnum::NonBulk(non_bulk[2].0.clone()), file);
    let (bulk, non_bulk) = PieceEnum::sort_pieces(Vec::<(&PieceEnum, u8)>::new());
    assert!(bulk.is_empty() && non_bulk.is_empty());
}

#[test]
fn execute_bulk_hands_out_the_first_job() {
    let a = apt("a");
    let b = command("b");
    let c = apt("c");
    let d = manual("d");
    let here = ctx(m(1));
    let job = PieceEnum::execute_bulk(vec![(&b, 10), (&a, 11), (&d, 12), (&c, 13)], &here);
    assert_eq!(job, Some((batch(false, &["a", "c"]), vec![11, 13])));
    let job = PieceEnum::undo_bulk(vec![(&b, 10), (&d, 12)], &here);
    assert_eq!(job, Some((single(true, command("b")), vec![10])));
    assert_eq!(PieceEnum::execute_bulk(Vec::<(&PieceEnum, u8)>::new(), &here), None);
    let dry = ExecutionData { dry_run: true, ..ctx(m(1)) };
    assert_eq!(PieceEnum::execute_bulk(vec![(&a, 1)], &dry), None);
    assert_eq!(PieceEnum::undo_bulk(vec![(&a, 1)], &dry), None);
}

#[test]
fn jobs_know_whether_they_are_defined() {
    assert!(single(false, command("x")).is_defined());
    assert!(!single(true, command("x")).is_defined());
    assert!(single(true, command_with_undo("x", "y")).is_defined());
    assert!(single(true, manual("x")).is_defined());
    assert!(batch(true, &["a"]).is_defined());
}
