use falconf::cli::TopLevelArgs;
use falconf::data::Data;
use falconf::errors::Error;
use falconf::execution_data::ExecutionData;
use falconf::full_piece::FullPiece;
use falconf::installation::Installation;
use falconf::machine::{Machine, MachineData};
use falconf::pieces::apt::Apt;
use falconf::pieces::{BulkPieceEnum, PieceEnum};
use falconf::repo::{same_bytes, CommitPlan, MergeAnalysis, PullAction, Repo, RepoStatus};
use falconf::utils::{contains, copy_machines, subset};

fn m(n: u128) -> Machine {
    Machine(n)
}

fn apt(package: &str) -> PieceEnum {
    PieceEnum::Bulk(BulkPieceEnum::Apt(Apt { package: package.to_string() }))
}

fn repo() -> Repo {
    let mut data = Data::init_new();
    data.insert(7, FullPiece::from_parts(apt("cowsay"), None, vec![m(1)], None, None).unwrap());
    Repo::init(Some(data), m(1), MachineData::new("one".to_string()))
}

#[test]
fn init_of_a_new_repository() {
    let repo = Repo::init(None, m(1), MachineData::new("one".to_string()));
    assert!(repo.data().ids().is_empty());
    assert_eq!(repo.data().machines(), vec![m(1)]);
    assert_eq!(repo.data().machine_data()[0].1.hostname, "one");
}

#[test]
fn init_of_a_repository_that_exists() {
    let first = repo();
    assert_eq!(first.data().ids(), &vec![7]);
    let mut data = Data::init_new();
    data.insert(7, FullPiece::from_parts(apt("cowsay"), None, vec![m(1)], None, None).unwrap());
    data.insert_machine(m(1), MachineData::new("one".to_string()));
    let second = Repo::init(Some(data), m(2), MachineData::new("two".to_string()));
    assert_eq!(second.data().ids(), &vec![7]);
    assert_eq!(second.data().machines(), vec![m(1), m(2)]);
}

#[test]
fn fast_forward_only_pull() {
    let repo = repo();
    let before = repo.data().pieces().clone();
    let diverged = MergeAnalysis { up_to_date: false, fast_forward: false };
    assert_eq!(repo.pull(&diverged), Err(Error::SyncConflict));
    assert_eq!(repo.data().pieces(), &before);
    assert_eq!(repo.data().ids(), &vec![7]);
    assert_eq!(
        repo.pull(&MergeAnalysis { up_to_date: false, fast_forward: true }),
        Ok(PullAction::FastForward)
    );
    assert_eq!(repo.pull(&MergeAnalysis { up_to_date: true, fast_forward: false }), Ok(PullAction::Nothing));
    assert_eq!(repo.pull(&MergeAnalysis { up_to_date: true, fast_forward: true }), Ok(PullAction::Nothing));
}

#[test]
fn pull_replaces_the_ledger() {
    let mut repo = repo();
    let mut pulled = Data::init_new();
    pulled.insert(8, FullPiece::new(apt("sl"), None));
    repo.update_data(pulled);
    assert_eq!(repo.data().ids(), &vec![8]);
    repo.data_mut().insert(9, FullPiece::new(apt("cowsay"), None));
    assert_eq!(repo.data().ids(), &vec![8, 9]);
}

#[test]
fn corrupt_detection() {
    let committed = b"(pieces: {}, machines: {})".to_vec();
    let mut on_disk = committed.clone();
    assert_eq!(Repo::status(&on_disk, &Some(committed.clone())), RepoStatus::Clean);
    assert!(Repo::get_from_path(Data::init_new(), &on_disk, &Some(committed.clone())).is_ok());
    // One byte more than was committed.
    on_disk.push(b' ');
    assert_eq!(Repo::status(&on_disk, &Some(committed.clone())), RepoStatus::Corrupt);
    assert_eq!(
        Repo::get_from_path(Data::init_new(), &on_disk, &Some(committed.clone())).err(),
        Some(Error::RepositoryCorrupt)
    );
    // A byte changed, a byte missing, and nothing committed at all.
    let mut changed = committed.clone();
    changed[3] ^= 1;
    assert_eq!(Repo::status(&changed, &Some(committed.clone())), RepoStatus::Corrupt);
    assert_eq!(Repo::status(&committed[1..].to_vec(), &Some(committed.clone())), RepoStatus::Corrupt);
    assert_eq!(Repo::status(&committed, &None), RepoStatus::Corrupt);
    assert_eq!(Repo::status(&vec![], &Some(vec![])), RepoStatus::Clean);
}

#[test]
fn bytes_compare() {
    assert!(same_bytes(&vec![], &vec![]));
    assert!(same_bytes(&vec![1, 2, 3], &vec![1, 2, 3]));
    assert!(!same_bytes(&vec![1, 2, 3], &vec![1, 2]));
    assert!(!same_bytes(&vec![1, 2, 3], &vec![1, 2, 4]));
}

fn files(list: &[&str]) -> Vec<String> {
    list.iter().map(|s| s.to_string()).collect()
}

#[test]
fn idempotent_sync_commits_nothing() {
    let repo = repo();
    let bytes = b"the ledger".to_vec();
    assert_eq!(repo.write_and_push(&bytes, &Some(bytes.clone()), &vec![]), CommitPlan::Skip);
}

#[test]
fn changes_are_committed() {
    let repo = repo();
    let old = b"the ledger".to_vec();
    let new = b"the ledger, changed".to_vec();
    let ledger_only = CommitPlan::Commit { paths: files(&["data.json"]) };
    assert_eq!(repo.write_and_push(&new, &Some(old.clone()), &vec![]), ledger_only);
    // The first commit of all.
    assert_eq!(repo.write_and_push(&new, &None, &vec![]), ledger_only);
    // A changed file is committed even where the ledger is as it was.
    assert_eq!(
        repo.write_and_push(&old, &Some(old.clone()), &files(&["etc/hosts", ".gitkeep"])),
        CommitPlan::Commit { paths: files(&["data.json", "files/etc/hosts", "files/.gitkeep"]) }
    );
}

#[test]
fn changed_files_lie_below_files() {
    assert_eq!(Repo::changed_files(&files(&[])), Ok(vec![]));
    assert_eq!(
        Repo::changed_files(&files(&["files/etc/hosts", "files/a", "files"])),
        Ok(files(&["etc/hosts", "a", ""]))
    );
    assert_eq!(Repo::changed_files(&files(&["files/a", "data.json"])), Err(Error::OutsideFiles));
    assert_eq!(Repo::changed_files(&files(&["file"])), Err(Error::OutsideFiles));
    assert_eq!(Repo::changed_files(&files(&["filez/a"])), Err(Error::OutsideFiles));
    assert_eq!(Repo::changed_files(&files(&["/files/a"])), Err(Error::OutsideFiles));
}

#[test]
fn paths_of_a_working_tree() {
    assert_eq!(Repo::file_dir("/home/u/.falconf/repository/"), "/home/u/.falconf/repository/files");
    assert_eq!(Repo::file_dir("/home/u/.falconf/repository"), "/home/u/.falconf/repository/files");
    assert_eq!(Repo::data_path("/r/"), "/r/data.json");
    assert_eq!(Installation::get_repository_path("/home/u/.falconf"), "/home/u/.falconf/repository");
    assert_eq!(Installation::get_machine_path("/home/u/.falconf"), "/home/u/.falconf/machine");
}

#[test]
fn machine_ids_read_back() {
    let text = "a1a2a3a4-b1b2-c1c2-d1d2-d3d4d5d6d7d8";
    let machine = Machine::parse(text).unwrap();
    assert_eq!(machine, Machine(0xa1a2a3a4_b1b2_c1c2_d1d2_d3d4d5d6d7d8));
    assert_eq!(machine.to_text(), text);
    assert_eq!(Machine::parse("A1A2A3A4B1B2C1C2D1D2D3D4D5D6D7D8"), Ok(machine));
    assert_eq!(Machine(0).to_text(), "00000000-0000-0000-0000-000000000000");
    assert_eq!(Machine::parse(""), Err(Error::InvalidMachineId));
    assert_eq!(Machine::parse("not a machine"), Err(Error::InvalidMachineId));
    assert_eq!(Machine::parse("a1a2a3a4-b1b2-c1c2-d1d2-d3d4d5d6d7d"), Err(Error::InvalidMachineId));
}

#[test]
fn new_machines_are_random_ids() {
    let a = Machine::new();
    let b = Machine::new();
    assert_ne!(a, b);
    for machine in [a, b] {
        // Version 4, variant 1.
        assert_eq!(machine.0 & 0x0000_0000_0000_f000_c000_0000_0000_0000, 0x0000_0000_0000_4000_8000_0000_0000_0000);
        assert_eq!(Machine::parse(&machine.to_text()), Ok(machine));
    }
}

#[test]
fn this_machine_has_a_name() {
    let data = MachineData::new_this().unwrap();
    assert_eq!(data.clone(), data);
    assert_eq!(MachineData::from_host_name(Some("box".to_string())), Ok(MachineData::new("box".to_string())));
    assert_eq!(MachineData::from_host_name(None), Err(Error::UnknownHostname));
}

#[test]
fn installation_is_made_once() {
    assert_eq!(Installation::init(true), Err(Error::AlreadyInstalled));
    let (machine, text) = Installation::init(false).unwrap();
    assert_eq!(Machine::parse(&text), Ok(machine));
}

#[test]
fn installation_is_found_by_its_identity() {
    let text = "a1a2a3a4-b1b2-c1c2-d1d2-d3d4d5d6d7d8";
    let found = Installation::get(true, text, repo()).unwrap();
    assert_eq!(found.machine(), &Machine(0xa1a2a3a4_b1b2_c1c2_d1d2_d3d4d5d6d7d8));
    assert_eq!(found.repo().data().ids(), &vec![7]);
    assert_eq!(Installation::get(false, text, repo()).err(), Some(Error::NotInstalled));
    assert_eq!(Installation::get(true, "nobody", repo()).err(), Some(Error::InvalidMachineId));
    assert_eq!(Installation::get(false, "nobody", repo()).err(), Some(Error::NotInstalled));
}

#[test]
fn installation_knows_what_is_not_synced() {
    let mut installation = Installation::new(m(2), repo());
    assert_eq!(installation.check_synced(), (vec![7], vec![]));
    installation.repo_mut().data_mut().insert(8, FullPiece::from_parts(apt("sl"), None, vec![m(2)], Some(vec![]), None).unwrap());
    assert_eq!(installation.check_synced(), (vec![7], vec![8]));
    let other = Installation::new(m(1), repo());
    assert_eq!(other.check_synced(), (vec![], vec![]));
}

#[test]
fn executions_are_told_the_mode() {
    let installation = Installation::new(m(2), repo());
    let args = TopLevelArgs::new_testing("/home/u/.falconf".to_string(), true);
    let data = ExecutionData::new(&installation, &args, "/home/u/.falconf/repository/");
    assert_eq!(data.file_dir, "/home/u/.falconf/repository/files");
    assert_eq!(data.machine, m(2));
    assert!(!data.dry_run);
    assert!(data.test_run);
    let args = TopLevelArgs::new_testing("/home/u/.falconf".to_string(), false);
    assert!(!ExecutionData::new(&installation, &args, "/r").test_run);
}

#[test]
fn analysis_tells_the_state() {
    assert_eq!(MergeAnalysis { up_to_date: true, fast_forward: false }.status(), RepoStatus::Clean);
    assert_eq!(MergeAnalysis { up_to_date: false, fast_forward: true }.status(), RepoStatus::Clean);
    assert_eq!(MergeAnalysis { up_to_date: false, fast_forward: false }.status(), RepoStatus::Diverged);
}

#[test]
fn identity_of_an_installation() {
    let text = "a1a2a3a4-b1b2-c1c2-d1d2-d3d4d5d6d7d8";
    assert_eq!(Installation::identity(true, text), Ok(Machine(0xa1a2a3a4_b1b2_c1c2_d1d2_d3d4d5d6d7d8)));
    assert_eq!(Installation::identity(false, text), Err(Error::NotInstalled));
    assert_eq!(Installation::identity(true, ""), Err(Error::InvalidMachineId));
}

#[test]
fn machines_as_sets() {
    let list = vec![m(1), m(2), m(1)];
    assert!(contains(&list, &m(2)));
    assert!(!contains(&list, &m(3)));
    assert!(!contains(&[], &m(1)));
    assert!(subset(&[], &list));
    assert!(subset(&[m(2), m(2)], &list));
    assert!(!subset(&list, &[m(1)]));
    assert_eq!(copy_machines(&list), list);
}
