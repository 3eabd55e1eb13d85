//! What the synchronized repository decides: whether the ledger file can be
//! trusted, what a pull may do, and when there is something to commit.

use crate::data::{Data, DataView};
use crate::errors::Error;
use crate::machine::{Machine, MachineData};
use crate::schedule::{lemma_run_is_idempotent, step_of, StepView};
use crate::text::{join_path, joined_path};
use vstd::prelude::*;

verus! {

/// The state of a synchronized repository.
#[derive(Debug, Clone, Copy, PartialEq, Eq, Structural)]
pub enum RepoStatus {
    /// The ledger file is what was committed last.
    Clean,
    /// The remote history and the local history have parted.
    Diverged,
    /// The ledger file is not what was committed last.
    Corrupt,
}

/// How the fetched remote branch relates to the local branch.
#[derive(Debug, Clone, Copy, PartialEq, Eq, Structural)]
pub struct MergeAnalysis {
    /// The local branch holds everything that the remote branch holds.
    pub up_to_date: bool,
    /// The remote branch holds everything that the local branch holds.
    pub fast_forward: bool,
}

impl MergeAnalysis {
    /// The state that the analysis finds the repository in: it has diverged
    /// where the local branch is neither up to date nor can be fast-forwarded.
    pub fn status(&self) -> (status: RepoStatus)
        ensures
            status == (if self.up_to_date || self.fast_forward {
                RepoStatus::Clean
            } else {
                RepoStatus::Diverged
            }),
    {
        if self.up_to_date || self.fast_forward {
            RepoStatus::Clean
        } else {
            RepoStatus::Diverged
        }
    }
}

/// What a pull does to the local branch.
#[derive(Debug, Clone, Copy, PartialEq, Eq, Structural)]
pub enum PullAction {
    /// Leave it as it is.
    Nothing,
    /// Move it to the fetched commit and check the working tree out anew.
    FastForward,
}

/// What `write_and_push` does to the repository.
#[derive(Debug, PartialEq, Eq)]
pub enum CommitPlan {
    /// Nothing: there is nothing new to record.
    Skip,
    /// Stage these paths, relative to the working tree; make one commit; push.
    Commit { paths: Vec<String> },
}

/// A commit plan as plain values.
pub enum CommitPlanView {
    Skip,
    Commit { paths: Seq<Seq<char>> },
}

impl View for CommitPlan {
    type V = CommitPlanView;

    open spec fn view(&self) -> CommitPlanView {
        match self {
            CommitPlan::Skip => CommitPlanView::Skip,
            CommitPlan::Commit { paths } => CommitPlanView::Commit { paths: paths.deep_view() },
        }
    }
}

/// The paths to stage for a commit: the ledger file, and each changed file
/// under the files subtree.
pub open spec fn staged_paths(changed_files: Seq<Seq<char>>) -> Seq<Seq<char>> {
    seq!["data.json"@] + Seq::new(
        changed_files.len(),
        |i: int| joined_path("files"@, changed_files[i]),
    )
}

/// The bytes of a file that a commit may hold.
pub open spec fn bytes_view(bytes: Option<Vec<u8>>) -> Option<Seq<u8>> {
    match bytes {
        Some(b) => Some(b@),
        None => None,
    }
}

/// What is to be done to record a ledger whose file holds `serialized`, where
/// the last commit holds `committed` for that file. Nothing is committed where
/// the file is committed already and no other file changed.
pub open spec fn commit_plan(
    serialized: Seq<u8>,
    committed: Option<Seq<u8>>,
    changed_files: Seq<Seq<char>>,
) -> CommitPlanView {
    if committed == Some(serialized) && changed_files.len() == 0 {
        CommitPlanView::Skip
    } else {
        CommitPlanView::Commit { paths: staged_paths(changed_files) }
    }
}

/// Where a path of the working tree lies below the files subtree; `None` for
/// a path that lies elsewhere.
pub open spec fn below_files(path: Seq<char>) -> Option<Seq<char>> {
    if path == "files"@ {
        Some(Seq::empty())
    } else if path.len() > 6 && path.subrange(0, 6) == "files/"@ {
        Some(path.subrange(6, path.len() as int))
    } else {
        None
    }
}

/// Whether two byte strings are the same.
pub fn same_bytes(a: &Vec<u8>, b: &Vec<u8>) -> (same: bool)
    ensures
        same == (a@ == b@),
{
    if a.len() != b.len() {
        return false;
    }
    let mut i: usize = 0;
    while i < a.len()
        invariant
            i <= a.len(),
            a.len() == b.len(),
            forall|j: int| 0 <= j < i ==> a@[j] == b@[j],
        decreases a.len() - i,
    {
        if a[i] != b[i] {
            return false;
        }
        i += 1;
    }
    proof {
        assert(a@ =~= b@);
    }
    true
}

/// The ledger of one machine, as its repository holds it.
#[derive(Debug)]
pub struct Repo {
    data: Data,
}

impl View for Repo {
    type V = DataView;

    closed spec fn view(&self) -> DataView {
        self.data@
    }
}

impl Repo {
    /// The repository of a machine that joins: with the ledger that the remote
    /// holds, or with an empty one where the remote is new; and with what is
    /// known of the machine.
    pub fn init(existing: Option<Data>, machine: Machine, machine_data: MachineData) -> (repo: Self)
        requires
            existing matches Some(data) ==> data@.wf(),
        ensures
            repo@ == (match existing {
                Some(data) => data@,
                None => DataView { ids: Seq::empty(), records: Seq::empty(), machines: Seq::empty() },
            }).with_machine(machine, machine_data@),
            repo@.wf(),
    {
        let mut data = match existing {
            Some(data) => data,
            None => Data::init_new(),
        };
        data.insert_machine(machine, machine_data);
        Self { data }
    }

    /// The files subtree of a working tree.
    pub fn file_dir(workdir: &str) -> (dir: String)
        ensures
            dir@ == joined_path(workdir@, "files"@),
    {
        join_path(workdir, "files")
    }

    /// The ledger file of a working tree.
    pub fn data_path(workdir: &str) -> (path: String)
        ensures
            path@ == joined_path(workdir@, "data.json"@),
    {
        join_path(workdir, "data.json")
    }

    pub fn data(&self) -> (data: &Data)
        ensures
            data@ == self@,
    {
        &self.data
    }

    pub fn data_mut(&mut self) -> (data: &mut Data)
        ensures
            data@ == old(self)@,
            final(self)@ == final(data)@,
    {
        &mut self.data
    }

    /// The state of a repository whose ledger file holds `on_disk` while the
    /// last commit holds `committed` for it.
    pub fn status(on_disk: &Vec<u8>, committed: &Option<Vec<u8>>) -> (status: RepoStatus)
        ensures
            status == (if bytes_view(*committed) == Some(on_disk@) {
                RepoStatus::Clean
            } else {
                RepoStatus::Corrupt
            }),
    {
        match committed {
            Some(bytes) => if same_bytes(bytes, on_disk) {
                RepoStatus::Clean
            } else {
                RepoStatus::Corrupt
            },
            None => RepoStatus::Corrupt,
        }
    }

    /// Opens the repository of an installation: `data` is the ledger that the
    /// ledger file holds. It fails with `RepositoryCorrupt` where the file is
    /// not what was committed last.
    pub fn get_from_path(
        data: Data,
        on_disk: &Vec<u8>,
        committed: &Option<Vec<u8>>,
    ) -> (repo: Result<Self, Error>)
        ensures
            match repo {
                Ok(r) => bytes_view(*committed) == Some(on_disk@) && r@ == data@,
                Err(e) => e == Error::RepositoryCorrupt && bytes_view(*committed) != Some(on_disk@),
            },
    {
        match Self::status(on_disk, committed) {
            RepoStatus::Clean => Ok(Self { data }),
            _ => Err(Error::RepositoryCorrupt),
        }
    }

    /// What a pull does once the remote branch is fetched: nothing where the
    /// local branch is up to date, a fast-forward where it only lags behind,
    /// and no merge ever. Where the histories have parted it fails with
    /// `SyncConflict`; the ledger is not touched.
    pub fn pull(&self, analysis: &MergeAnalysis) -> (action: Result<PullAction, Error>)
        ensures
            action.is_err() == (!analysis.up_to_date && !analysis.fast_forward),
            action == (if analysis.up_to_date {
                Ok::<PullAction, Error>(PullAction::Nothing)
            } else if analysis.fast_forward {
                Ok::<PullAction, Error>(PullAction::FastForward)
            } else {
                Err::<PullAction, Error>(Error::SyncConflict)
            }),
    {
        match analysis.status() {
            RepoStatus::Diverged => Err(Error::SyncConflict),
            _ => if analysis.up_to_date {
                Ok(PullAction::Nothing)
            } else {
                Ok(PullAction::FastForward)
            },
        }
    }

    /// Takes the ledger that a pull has brought in place of the old one.
    pub fn update_data(&mut self, data: Data)
        ensures
            final(self)@ == data@,
    {
        self.data = data;
    }

    /// What is to be done to record the ledger, whose file now holds
    /// `serialized`, together with the changed files, which are named relative
    /// to the files subtree. `committed` is what the last commit holds for the
    /// ledger file, if there is a commit and it holds one.
    pub fn write_and_push(
        &self,
        serialized: &Vec<u8>,
        committed: &Option<Vec<u8>>,
        changed_files: &Vec<String>,
    ) -> (plan: CommitPlan)
        ensures
            plan@ == commit_plan(serialized@, bytes_view(*committed), changed_files.deep_view()),
    {
        let unchanged = match committed {
            Some(bytes) => same_bytes(bytes, serialized),
            None => false,
        };
        if unchanged && changed_files.len() == 0 {
            return CommitPlan::Skip;
        }
        let mut paths: Vec<String> = Vec::new();
        paths.push("data.json".to_owned());
        let mut i: usize = 0;
        while i < changed_files.len()
            invariant
                i <= changed_files.len(),
                paths@.len() == i + 1,
                paths@[0]@ == "data.json"@,
                forall|j: int|
                    0 <= j < i ==> (#[trigger] paths@[j + 1])@ == joined_path(
                        "files"@,
                        changed_files@[j]@,
                    ),
            decreases changed_files.len() - i,
        {
            paths.push(join_path("files", changed_files[i].as_str()));
            i += 1;
        }
        proof {
            let want = staged_paths(changed_files.deep_view());
            assert(paths.deep_view().len() == want.len());
            assert forall|j: int| 0 <= j < want.len() implies paths.deep_view()[j] == want[j] by {
                if j > 0 {
                    assert(paths@[(j - 1) + 1]@ == joined_path("files"@, changed_files@[j - 1]@));
                }
            }
            assert(paths.deep_view() =~= want);
        }
        CommitPlan::Commit { paths }
    }

    /// The files that changed in the working tree, relative to the files
    /// subtree, given their paths relative to the working tree. It fails with
    /// `OutsideFiles` where a path lies outside the files subtree.
    pub fn changed_files(paths: &Vec<String>) -> (files: Result<Vec<String>, Error>)
        ensures
            match files {
                Ok(f) => f@.len() == paths@.len() && forall|i: int|
                    0 <= i < paths@.len() ==> below_files(paths@[i]@) == Some(
                        (#[trigger] f@[i])@,
                    ),
                Err(e) => e == Error::OutsideFiles && exists|i: int|
                    0 <= i < paths@.len() && below_files(#[trigger] paths@[i]@).is_none(),
            },
    {
        let mut files: Vec<String> = Vec::new();
        let mut i: usize = 0;
        while i < paths.len()
            invariant
                i <= paths.len(),
                files@.len() == i,
                forall|j: int| 0 <= j < i ==> below_files(paths@[j]@) == Some((#[trigger] files@[j])@),
            decreases paths.len() - i,
        {
            match Self::strip_files(paths[i].as_str()) {
                Some(file) => {
                    files.push(file);
                },
                None => {
                    assert(below_files(paths@[i as int]@).is_none());
                    return Err(Error::OutsideFiles);
                },
            }
            i += 1;
        }
        Ok(files)
    }

    fn strip_files(path: &str) -> (file: Option<String>)
        ensures
            match file {
                Some(f) => below_files(path@) == Some(f@),
                None => below_files(path@).is_none(),
            },
    {
        proof {
            reveal_strlit("files");
            reveal_strlit("files/");
        }
        let n = path.unicode_len();
        if n == 5 {
            if crate::text::same_text(path, "files") {
                Some(String::new())
            } else {
                None
            }
        } else if n > 6 {
            if crate::text::same_text(path.substring_char(0, 6), "files/") {
                Some(path.substring_char(6, n).to_owned())
            } else {
                None
            }
        } else {
            None
        }
    }
}

/// A sync that follows a sync commits nothing. Take any way to write a ledger
/// as bytes that depends on the ledger alone. After a run on `machine` that
/// ended well and was committed, with no record added and no change pulled,
/// a second run changes no record, and recording its ledger is skipped.
pub proof fn lemma_second_sync_commits_nothing(
    ledger: DataView,
    machine: Machine,
    test_run: bool,
    last: Option<Result<(), Error>>,
    written: spec_fn(DataView) -> Seq<u8>,
)
    requires
        ledger.wf(),
        step_of(ledger.records, machine, false, test_run, last).1 == StepView::Finished(Ok(())),
    ensures
        ({
            let first = DataView {
                records: step_of(ledger.records, machine, false, test_run, last).0,
                ..ledger
            };
            let second = DataView {
                records: step_of(first.records, machine, false, test_run, None).0,
                ..first
            };
            &&& step_of(first.records, machine, false, test_run, None).1 == StepView::Finished(Ok(()))
            &&& second == first
            &&& commit_plan(written(second), Some(written(first)), Seq::empty())
                == CommitPlanView::Skip
        }),
{
    lemma_run_is_idempotent(ledger.records, machine, test_run, last);
}

} // verus!
