//! One machine's installation: its identity and its repository.

use crate::data::{ids_at, DataView};
use crate::errors::Error;
use crate::full_piece::Todo;
use crate::schedule::due;
use crate::machine::{text_of_uuid, uuid_of_text, Machine};
use crate::repo::Repo;
use crate::text::{join_path, joined_path};
use vstd::prelude::*;

verus! {

/// One machine's part in the fleet: who it is, and its repository.
#[derive(Debug)]
pub struct Installation {
    machine: Machine,
    repo: Repo,
}

/// An installation as plain values.
pub struct InstallationView {
    pub machine: Machine,
    pub ledger: DataView,
}

impl View for Installation {
    type V = InstallationView;

    closed spec fn view(&self) -> InstallationView {
        InstallationView { machine: self.machine, ledger: self.repo@ }
    }
}

impl Installation {
    /// The installation of `machine` with its repository.
    pub fn new(machine: Machine, repo: Repo) -> (installation: Self)
        ensures
            installation@ == (InstallationView { machine, ledger: repo@ }),
    {
        Self { machine, repo }
    }

    pub fn machine(&self) -> (machine: &Machine)
        ensures
            *machine == self@.machine,
    {
        &self.machine
    }

    pub fn repo(&self) -> (repo: &Repo)
        ensures
            repo@ == self@.ledger,
    {
        &self.repo
    }

    pub fn repo_mut(&mut self) -> (repo: &mut Repo)
        ensures
            repo@ == old(self)@.ledger,
            final(self)@ == (InstallationView {
                machine: old(self)@.machine,
                ledger: final(repo)@,
            }),
    {
        &mut self.repo
    }

    /// The identity of a new installation and the text to keep it in. It fails
    /// with `AlreadyInstalled` where the root exists already.
    pub fn init(root_exists: bool) -> (identity: Result<(Machine, String), Error>)
        ensures
            match identity {
                Ok((machine, text)) => !root_exists && text@ == text_of_uuid(machine.0)
                    && uuid_of_text(text@) == Some(machine.0),
                Err(e) => e == Error::AlreadyInstalled && root_exists,
            },
    {
        if root_exists {
            return Err(Error::AlreadyInstalled);
        }
        let machine = Machine::new();
        let text = machine.to_text();
        Ok((machine, text))
    }

    /// The identity of the installation at a root, of which `machine_text` is
    /// what its identity file holds. It fails with `NotInstalled` where the
    /// root is no directory, and with `InvalidMachineId` where the text is no
    /// identity.
    pub fn identity(root_is_dir: bool, machine_text: &str) -> (machine: Result<Machine, Error>)
        ensures
            match machine {
                Ok(m) => root_is_dir && uuid_of_text(machine_text@) == Some(m.0),
                Err(e) => if !root_is_dir {
                    e == Error::NotInstalled
                } else {
                    e == Error::InvalidMachineId && uuid_of_text(machine_text@).is_none()
                },
            },
    {
        if !root_is_dir {
            return Err(Error::NotInstalled);
        }
        Machine::parse(machine_text)
    }

    /// The installation at a root with its repository; it fails as `identity`
    /// does.
    pub fn get(
        root_is_dir: bool,
        machine_text: &str,
        repo: Repo,
    ) -> (installation: Result<Self, Error>)
        ensures
            match installation {
                Ok(i) => root_is_dir && uuid_of_text(machine_text@) == Some(i@.machine.0)
                    && i@.ledger == repo@,
                Err(e) => if !root_is_dir {
                    e == Error::NotInstalled
                } else {
                    e == Error::InvalidMachineId && uuid_of_text(machine_text@).is_none()
                },
            },
    {
        match Self::identity(root_is_dir, machine_text) {
            Ok(machine) => Ok(Self::new(machine, repo)),
            Err(e) => Err(e),
        }
    }

    /// Where an installation keeps its repository.
    pub fn get_repository_path(root: &str) -> (path: String)
        ensures
            path@ == joined_path(root@, "repository"@),
    {
        join_path(root, "repository")
    }

    /// Where an installation keeps its identity.
    pub fn get_machine_path(root: &str) -> (path: String)
        ensures
            path@ == joined_path(root@, "machine"@),
    {
        join_path(root, "machine")
    }

    /// The ids of the records that the ledger has for this machine to execute,
    /// and to undo: what a sync would work on.
    pub fn check_synced(&self) -> (ids: (Vec<u32>, Vec<u32>))
        requires
            self@.ledger.wf(),
        ensures
            ids.0@ == ids_at(
                self@.ledger.ids,
                due(
                    self@.ledger.records,
                    self@.machine,
                    Todo::Execute,
                    self@.ledger.records.len() as int,
                ),
            ),
            ids.1@ == ids_at(
                self@.ledger.ids,
                due(
                    self@.ledger.records,
                    self@.machine,
                    Todo::Undo,
                    self@.ledger.records.len() as int,
                ),
            ),
    {
        self.repo.data().pending(&self.machine)
    }
}

} // verus!
