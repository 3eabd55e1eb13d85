use falconf::cli::{EditArgs, PieceRef, RemoveArgs, UndoArgs};
use falconf::data::{contains_id, Data};
use falconf::errors::{Error, ExecutionError};
use falconf::execution_data::ExecutionData;
use falconf::full_piece::{FullPiece, Todo};
use falconf::schedule::Step;
use falconf::machine::{Machine, MachineData};
use falconf::pieces::apt::Apt;
use falconf::pieces::command::Command;
use falconf::pieces::file::File;
use falconf::pieces::{BulkPieceEnum, Job, NonBulkPieceEnum, PieceEnum, Work};

fn m(n: u128) -> Machine {
    Machine(n)
}

fn apt(package: &str) -> PieceEnum {
    PieceEnum::Bulk(BulkPieceEnum::Apt(Apt { package: package.to_string() }))
}

fn command(line: &str, undo: Option<&str>) -> PieceEnum {
    PieceEnum::NonBulk(NonBulkPieceEnum::Command(Command {
        command: line.to_string(),
        undo_command: undo.map(|u| u.to_string()),
    }))
}

fn file(location: &str) -> PieceEnum {
    PieceEnum::NonBulk(NonBulkPieceEnum::File(File {
        location: location.to_string(),
        expected_previous_content: None,
    }))
}

fn rec(piece: PieceEnum, done: Vec<Machine>, undone: Option<Vec<Machine>>) -> FullPiece {
    FullPiece::from_parts(piece, None, done, undone, None).unwrap()
}

fn ctx(machine: Machine) -> ExecutionData {
    ExecutionData { file_dir: "/repo/files".to_string(), machine, dry_run: false, test_run: false }
}

fn ledger() -> Data {
    let mut data = Data::init_new();
    assert_eq!(data.insert(0x10, rec(apt("cowsay"), vec![m(1)], None)), None);
    assert_eq!(data.insert(0x20, rec(command("echo hi", None), vec![m(1)], None)), None);
    assert_eq!(data.insert(0x30, rec(file("/etc/hosts"), vec![m(1), m(2)], Some(vec![m(1), m(2)]))), None);
    assert_eq!(data.insert(0x05, rec(apt("sl"), vec![m(1), m(2)], Some(vec![m(1)]))), None);
    data
}

#[test]
fn new_ledger_is_empty() {
    let data = Data::init_new();
    assert!(data.ids().is_empty());
    assert!(data.pieces().is_empty());
    assert!(data.machines().is_empty());
    assert!(data.machine_data().is_empty());
    assert_eq!(data.resolve(&PieceRef::Last), Err(Error::NotFound));
    assert_eq!(data.list(), vec![]);
}

#[test]
fn records_keep_the_order_of_insertion() {
    let mut data = ledger();
    assert_eq!(data.ids(), &vec![0x10, 0x20, 0x30, 0x05]);
    assert_eq!(data.position(0x30), Some(2));
    assert_eq!(data.position(0x31), None);
    assert_eq!(data.get(0x05), Some(&rec(apt("sl"), vec![m(1), m(2)], Some(vec![m(1)]))));
    assert_eq!(data.get(0x06), None);
    // A record under a known id is replaced where it stands.
    let old = data.insert(0x20, rec(apt("new"), vec![], None));
    assert_eq!(old, Some(rec(command("echo hi", None), vec![m(1)], None)));
    assert_eq!(data.ids(), &vec![0x10, 0x20, 0x30, 0x05]);
    assert_eq!(data.get(0x20), Some(&rec(apt("new"), vec![], None)));
}

#[test]
fn references_resolve() {
    let data = ledger();
    assert_eq!(data.resolve(&PieceRef::Last), Ok(0x05));
    assert_eq!(data.resolve(&PieceRef::Id(0x10)), Ok(0x10));
    assert_eq!(data.resolve(&PieceRef::Id(0x11)), Err(Error::NotFound));
}

#[test]
fn ledger_from_parts() {
    let data = Data::from_parts(
        vec![(2, rec(apt("a"), vec![], None)), (1, rec(apt("b"), vec![], None))],
        vec![(m(1), MachineData::new("one".to_string())), (m(2), MachineData::new("two".to_string()))],
    )
    .unwrap();
    assert_eq!(data.ids(), &vec![2, 1]);
    assert_eq!(data.pieces(), &vec![rec(apt("a"), vec![], None), rec(apt("b"), vec![], None)]);
    assert_eq!(data.machines(), vec![m(1), m(2)]);
    assert_eq!(data.machine_data()[1].1.hostname, "two");
}

#[test]
fn ledger_with_a_repeated_id_is_refused() {
    let twice = Data::from_parts(
        vec![(2, rec(apt("a"), vec![], None)), (1, rec(apt("b"), vec![], None)), (2, rec(apt("c"), vec![], None))],
        vec![],
    );
    assert_eq!(twice, Err(Error::InvariantViolation));
    let twice = Data::from_parts(
        vec![],
        vec![(m(1), MachineData::new("one".to_string())), (m(1), MachineData::new("uno".to_string()))],
    );
    assert_eq!(twice, Err(Error::InvariantViolation));
}

#[test]
fn machines_join_once() {
    let mut data = Data::init_new();
    assert_eq!(data.insert_machine(m(1), MachineData::new("one".to_string())), None);
    assert_eq!(data.insert_machine(m(2), MachineData::new("two".to_string())), None);
    assert_eq!(
        data.insert_machine(m(1), MachineData::new("uno".to_string())),
        Some(MachineData::new("one".to_string()))
    );
    assert_eq!(data.machines(), vec![m(1), m(2)]);
    assert_eq!(data.machine_data()[0].1.hostname, "uno");
    assert_eq!(data.machine_data()[1].1.hostname, "two");
}

fn run<F: FnMut(&Job) -> Result<(), Error>>(
    data: &mut Data,
    machine: &Machine,
    execution_data: &ExecutionData,
    mut host: F,
) -> Result<(), Error> {
    let mut last = None;
    loop {
        match data.do_todo(machine, execution_data, last) {
            Step::Run(job) => last = Some(host(&job)),
            Step::Finished(result) => return result,
        }
    }
}

#[test]
fn sync_of_a_ledger() {
    let mut data = ledger();
    let here = m(2);
    let mut jobs = vec![];
    let result = run(&mut data, &here, &ctx(here), |job| {
        jobs.push((job.undo, matches!(job.work, Work::Apt(_))));
        Ok(())
    });
    assert_eq!(result, Ok(()));
    assert_eq!(jobs, vec![(false, true), (false, false), (true, true)]);
    assert_eq!(data.ids(), &vec![0x10, 0x20, 0x30, 0x05]);
    assert_eq!(data.get(0x10).unwrap().done_on(), &vec![m(1), m(2)]);
    assert_eq!(data.get(0x20).unwrap().done_on(), &vec![m(1), m(2)]);
    assert_eq!(data.get(0x05).unwrap().undone_on(), &Some(vec![m(1), m(2)]));
    assert_eq!(data.pending(&here), (vec![], vec![]));
    // A second sync finds nothing to do and changes nothing.
    let before = data.pieces().clone();
    assert_eq!(data.do_todo(&here, &ctx(here), None), Step::Finished(Ok(())));
    assert_eq!(data.pieces(), &before);
}

#[test]
fn pending_names_what_a_sync_would_do() {
    let data = ledger();
    assert_eq!(data.pending(&m(2)), (vec![0x10, 0x20], vec![0x05]));
    assert_eq!(data.pending(&m(1)), (vec![], vec![]));
    assert_eq!(data.pending(&m(3)), (vec![0x10, 0x20], vec![]));
}

#[test]
fn undo_of_one_record() {
    let mut data = ledger();
    let here = m(1);
    let args = UndoArgs { piece_ids: vec![0x20], done_here: false };
    assert_eq!(data.undo(0x21, &args, &ctx(here)), Err(Error::NotFound));
    assert_eq!(data.undo(0x05, &args, &ctx(here)), Err(Error::AlreadyUndone));
    assert_eq!(data.undo(0x20, &args, &ctx(here)), Ok(()));
    assert_eq!(data.get(0x20).unwrap().undone_on(), &Some(vec![]));
    assert_eq!(data.get(0x20).unwrap().todo(&here), Todo::Undo);
    // Only that record is worked on, and it has no undo command.
    let step = data.do_todo_one(0x20, &here, &ctx(here), None);
    assert_eq!(step, Step::Finished(Err(Error::ExecutionFailure(ExecutionError::UndefinedUndo))));
    assert_eq!(data.get(0x20).unwrap().undone_on(), &Some(vec![]));
    assert_eq!(data.get(0x10).unwrap().done_on(), &vec![m(1)]);
}

#[test]
fn undo_of_one_record_runs_its_job() {
    let mut data = Data::init_new();
    data.insert(1, rec(apt("other"), vec![], None));
    data.insert(2, rec(command("up", Some("down")), vec![m(1)], None));
    let here = m(1);
    data.undo(2, &UndoArgs { piece_ids: vec![2], done_here: false }, &ctx(here)).unwrap();
    let step = data.do_todo_one(2, &here, &ctx(here), None);
    assert_eq!(
        step,
        Step::Run(Job {
            undo: true,
            work: Work::NonBulk(NonBulkPieceEnum::Command(Command {
                command: "up".to_string(),
                undo_command: Some("down".to_string())
            }))
        })
    );
    assert_eq!(data.get(2).unwrap().undone_on(), &Some(vec![]));
    let step = data.do_todo_one(2, &here, &ctx(here), Some(Ok(())));
    assert_eq!(step, Step::Finished(Ok(())));
    assert_eq!(data.get(2).unwrap().undone_on(), &Some(vec![here]));
    // The other record is still due: it was not part of the run.
    assert_eq!(data.get(1).unwrap().done_on(), &vec![]);
    assert_eq!(data.ids(), &vec![1, 2]);
    assert_eq!(data.do_todo_one(3, &here, &ctx(here), None), Step::Finished(Err(Error::NotFound)));
}

#[test]
fn undo_that_fails_stays_due() {
    let mut data = Data::init_new();
    data.insert(2, rec(command("up", Some("down")), vec![m(1)], None));
    let here = m(1);
    data.undo(2, &UndoArgs { piece_ids: vec![2], done_here: false }, &ctx(here)).unwrap();
    assert!(matches!(data.do_todo_one(2, &here, &ctx(here), None), Step::Run(_)));
    let failure = Error::ExecutionFailure(ExecutionError::IoError("no shell".to_string()));
    let step = data.do_todo_one(
        2,
        &here,
        &ctx(here),
        Some(Err(Error::ExecutionFailure(ExecutionError::IoError("no shell".to_string())))),
    );
    assert_eq!(step, Step::Finished(Err(failure)));
    assert_eq!(data.get(2).unwrap().undone_on(), &Some(vec![]));
    assert_eq!(data.get(2).unwrap().todo(&here), Todo::Undo);
}

#[test]
fn selection_follows_the_ledger() {
    let data = ledger();
    assert_eq!(data.selected(&vec![0x05, 0x10, 0x05]), Ok(vec![0x10, 0x05]));
    assert_eq!(data.selected(&vec![]), Ok(vec![]));
    assert_eq!(data.selected(&vec![0x10, 0x11]), Err(Error::NotFound));
    assert!(contains_id(&vec![1, 2, 3], 2));
    assert!(!contains_id(&vec![1, 2, 3], 4));
}

#[test]
fn remove_takes_unused_records_out() {
    let mut data = ledger();
    let files = data.remove(&RemoveArgs { piece_ids: vec![0x30], force: false });
    assert_eq!(files, Ok(vec!["etc/hosts".to_string()]));
    assert_eq!(data.ids(), &vec![0x10, 0x20, 0x05]);
    assert_eq!(data.get(0x30), None);
    assert_eq!(data.get(0x05), Some(&rec(apt("sl"), vec![m(1), m(2)], Some(vec![m(1)]))));
    // Nothing to remove, nothing removed.
    assert_eq!(data.remove(&RemoveArgs { piece_ids: vec![], force: false }), Ok(vec![]));
    assert_eq!(data.ids(), &vec![0x10, 0x20, 0x05]);
}

#[test]
fn remove_refuses_records_in_use() {
    let mut data = ledger();
    let before = data.pieces().clone();
    assert_eq!(
        data.remove(&RemoveArgs { piece_ids: vec![0x30, 0x05], force: false }),
        Err(Error::StillInUse)
    );
    assert_eq!(data.remove(&RemoveArgs { piece_ids: vec![0x10], force: false }), Err(Error::StillInUse));
    // An unknown id counts before a record in use does.
    assert_eq!(
        data.remove(&RemoveArgs { piece_ids: vec![0x10, 0x99], force: false }),
        Err(Error::NotFound)
    );
    assert_eq!(data.remove(&RemoveArgs { piece_ids: vec![0x99], force: true }), Err(Error::NotFound));
    assert_eq!(data.ids(), &vec![0x10, 0x20, 0x30, 0x05]);
    assert_eq!(data.pieces(), &before);
}

#[test]
fn remove_can_be_forced() {
    let mut data = ledger();
    let files = data.remove(&RemoveArgs { piece_ids: vec![0x05, 0x10, 0x30], force: true });
    assert_eq!(files, Ok(vec!["etc/hosts".to_string()]));
    assert_eq!(data.ids(), &vec![0x20]);
    assert_eq!(data.pieces(), &vec![rec(command("echo hi", None), vec![m(1)], None)]);
}

fn edit_args(piece: PieceRef) -> EditArgs {
    EditArgs { comment: None, remove_comment: false, piece, undo: None, remove_undo: false }
}

#[test]
fn edit_finds_its_record() {
    let mut data = ledger();
    let args = EditArgs { comment: Some("the last".to_string()), ..edit_args(PieceRef::Last) };
    assert_eq!(data.edit(&args), Ok(()));
    assert_eq!(data.get(0x05).unwrap().comment(), &Some("the last".to_string()));
    let args = EditArgs { undo: Some("echo bye".to_string()), ..edit_args(PieceRef::Id(0x20)) };
    assert_eq!(data.edit(&args), Ok(()));
    assert_eq!(data.get(0x20).unwrap().piece(), &command("echo hi", Some("echo bye")));
    let args = EditArgs { undo: Some("x".to_string()), ..edit_args(PieceRef::Id(0x10)) };
    assert_eq!(data.edit(&args), Err(Error::NotACommand));
    let args = EditArgs { comment: Some("x".to_string()), ..edit_args(PieceRef::Id(0x11)) };
    assert_eq!(data.edit(&args), Err(Error::NotFound));
    assert_eq!(Data::init_new().edit(&edit_args(PieceRef::Last)), Err(Error::NotFound));
    assert_eq!(data.ids(), &vec![0x10, 0x20, 0x30, 0x05]);
}

#[test]
fn test_list() {
    let mut data = Data::init_new();
    let here = m(1);
    // Apt
    data.insert(0x1a2b3c4d, rec(apt("cowsay"), vec![here], None));
    // Command
    data.insert(2, rec(command("echo 'some text'", None), vec![here], None));
    // File
    let test1 = "/tmp/test_falconf_files/test1.txt";
    data.insert(3, rec(file(test1), vec![here], None));
    // Manual
    data.insert(
        0xABCDEF01,
        rec(
            PieceEnum::NonBulk(NonBulkPieceEnum::Manual(falconf::pieces::manual::Manual {
                message: "some message".to_string(),
            })),
            vec![here],
            None,
        ),
    );
    // With comment
    data.insert(
        5,
        FullPiece::from_parts(apt("cowsay"), Some("This is a comment!".to_string()), vec![here], None, None)
            .unwrap(),
    );
    // Undone & unused
    data.insert(6, rec(apt("cowsay"), vec![here], None));
    data.undo(6, &UndoArgs { piece_ids: vec![6], done_here: true }, &ctx(here)).unwrap();

    let ids = ["1a2b3c4d", "00000002", "00000003", "abcdef01", "00000005", "00000006"];
    let output = data
        .list()
        .iter()
        .zip(ids)
        .map(|(line, id)| {
            let styled = line.styled();
            assert!(styled.contains(id));
            styled.replace(id, "ID_WAS_HERE")
        })
        .collect::<Vec<_>>()
        .join("\n");

    let expected = format!(
        "
\u{1b}[1m\u{1b}[35m[ID_WAS_HERE]\u{1b}[39m\u{1b}[0m apt install cowsay\u{1b}[96m\u{1b}[3m\u{1b}[0m\u{1b}[39m
\u{1b}[1m\u{1b}[35m[ID_WAS_HERE]\u{1b}[39m\u{1b}[0m echo 'some text'\u{1b}[96m\u{1b}[3m\u{1b}[0m\u{1b}[39m
\u{1b}[1m\u{1b}[35m[ID_WAS_HERE]\u{1b}[39m\u{1b}[0m Tracking file at: {}\u{1b}[96m\u{1b}[3m\u{1b}[0m\u{1b}[39m
\u{1b}[1m\u{1b}[35m[ID_WAS_HERE]\u{1b}[39m\u{1b}[0m Manual action: some message\u{1b}[96m\u{1b}[3m\u{1b}[0m\u{1b}[39m
\u{1b}[1m\u{1b}[35m[ID_WAS_HERE]\u{1b}[39m\u{1b}[0m apt install cowsay // This is a comment!\u{1b}[96m\u{1b}[3m\u{1b}[0m\u{1b}[39m
\u{1b}[9m\u{1b}[1m\u{1b}[35m[ID_WAS_HERE]\u{1b}[39m\u{1b}[0m\u{1b}[0m\u{1b}[9m \u{1b}[0m\u{1b}[9mapt install cowsay\u{1b}[0m\u{1b}[9m\u{1b}[0m\u{1b}[96m\u{1b}[3m (unused)\u{1b}[0m\u{1b}[39m
",
        test1
    );

    assert_eq!(format!("\n{output}\n"), expected,);
}

#[test]
fn list_in_plain_text() {
    let mut data = Data::init_new();
    let here = m(1);
    data.insert(1, rec(apt("cowsay"), vec![here], None));
    data.insert(
        5,
        FullPiece::from_parts(apt("cowsay"), Some("This is a comment!".to_string()), vec![here], None, None)
            .unwrap(),
    );
    data.insert(6, rec(apt("cowsay"), vec![here], Some(vec![here])));
    let output: Vec<String> = data.list().iter().map(|line| line.plain()).collect();
    let expected = vec![
        "[00000001] apt install cowsay",
        "[00000005] apt install cowsay // This is a comment!",
        "[00000006] apt install cowsay (unused)",
    ];
    assert_eq!(output, expected);
    let struck: Vec<bool> = data.list().iter().map(|line| line.undone).collect();
    assert_eq!(struck, vec![false, false, true]);
}
