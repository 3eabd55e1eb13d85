//! The ledger: the records under their ids, in the order of their insertion,
//! and what is known of each machine.

use crate::cli::{EditArgs, PieceRef, RemoveArgs, UndoArgs};
use crate::errors::Error;
use crate::execution_data::ExecutionData;
use crate::full_piece::{listing_of, FullPiece, FullPieceView, Listing, Todo};
use crate::machine::{Machine, MachineData};
use crate::pieces::{PieceEnum, PieceView};
use crate::schedule::{
    all_wf, due, lemma_step_only_adds, positions, records_view, step_of, Step, StepView,
};
use vstd::prelude::*;

verus! {

/// The ledger: the records in the order in which they were inserted, each
/// under its id, and what is known of each machine.
#[derive(Debug, PartialEq, Eq)]
pub struct Data {
    ids: Vec<u32>,
    pieces: Vec<FullPiece>,
    machines: Vec<(Machine, MachineData)>,
}

/// A ledger as plain values. The record under `ids[i]` is `records[i]`.
pub struct DataView {
    pub ids: Seq<u32>,
    pub records: Seq<FullPieceView>,
    pub machines: Seq<(Machine, Seq<char>)>,
}

/// The machines that a list tells about.
pub open spec fn machine_keys(machines: Seq<(Machine, Seq<char>)>) -> Seq<Machine> {
    Seq::new(machines.len(), |i: int| machines[i].0)
}

/// What a list tells about machines, as plain values.
pub open spec fn machines_data_view(machines: Seq<(Machine, MachineData)>) -> Seq<
    (Machine, Seq<char>),
> {
    Seq::new(machines.len(), |i: int| (machines[i].0, machines[i].1@))
}

/// The records that are left when those under `ids` are taken out of a list,
/// and the ids that are left.
pub open spec fn without(
    all_ids: Seq<u32>,
    records: Seq<FullPieceView>,
    ids: Seq<u32>,
    n: int,
) -> (Seq<u32>, Seq<FullPieceView>)
    decreases n,
{
    if n <= 0 {
        (Seq::empty(), Seq::empty())
    } else {
        let rest = without(all_ids, records, ids, n - 1);
        if ids.contains(all_ids[n - 1]) {
            rest
        } else {
            (rest.0.push(all_ids[n - 1]), rest.1.push(records[n - 1]))
        }
    }
}

/// The ids among the first `n` of a ledger that are in `ids`, in the order of
/// the ledger.
pub open spec fn selection(all_ids: Seq<u32>, ids: Seq<u32>, n: int) -> Seq<u32>
    decreases n,
{
    if n <= 0 {
        Seq::empty()
    } else {
        let rest = selection(all_ids, ids, n - 1);
        if ids.contains(all_ids[n - 1]) {
            rest.push(all_ids[n - 1])
        } else {
            rest
        }
    }
}

/// Where the tracked file of a file piece lives, relative to the files
/// subtree.
pub open spec fn file_of(piece: PieceView) -> Option<Seq<char>> {
    match piece {
        PieceView::File { location, .. } => Some(location.subrange(1, location.len() as int)),
        _ => None,
    }
}

impl DataView {
    /// Every id and every machine occurs once, and every record is well
    /// formed.
    pub open spec fn wf(self) -> bool {
        &&& self.ids.len() == self.records.len()
        &&& self.ids.no_duplicates()
        &&& machine_keys(self.machines).no_duplicates()
        &&& all_wf(self.records)
    }

    /// Whether a record stands under `id`.
    pub open spec fn has(self, id: u32) -> bool {
        self.ids.contains(id)
    }

    /// The record under `id`.
    pub open spec fn record(self, id: u32) -> FullPieceView {
        self.records[self.ids.index_of(id)]
    }

    /// The id that a reference names, if any: the id itself where a record
    /// stands under it, and the id that was inserted last.
    pub open spec fn resolved(self, piece: PieceRef) -> Option<u32> {
        match piece {
            PieceRef::Id(id) => if self.has(id) {
                Some(id)
            } else {
                None
            },
            PieceRef::Last => if self.ids.len() > 0 {
                Some(self.ids.last())
            } else {
                None
            },
        }
    }

    /// The ledger with `record` under `id`: in place of the record that stood
    /// under that id, or at the end.
    pub open spec fn inserted(self, id: u32, record: FullPieceView) -> DataView {
        if self.has(id) {
            DataView { records: self.records.update(self.ids.index_of(id), record), ..self }
        } else {
            DataView { ids: self.ids.push(id), records: self.records.push(record), ..self }
        }
    }

    /// The ledger with `data` told about `machine`: in place of what was told
    /// about it, or at the end.
    pub open spec fn with_machine(self, machine: Machine, data: Seq<char>) -> DataView {
        let keys = machine_keys(self.machines);
        if keys.contains(machine) {
            DataView { machines: self.machines.update(keys.index_of(machine), (machine, data)), ..self }
        } else {
            DataView { machines: self.machines.push((machine, data)), ..self }
        }
    }

    /// The files of the records under `ids`, in the order of `ids`.
    pub open spec fn files(self, ids: Seq<u32>) -> Seq<Seq<char>>
        decreases ids.len(),
    {
        if ids.len() == 0 {
            Seq::empty()
        } else {
            let rest = self.files(ids.drop_last());
            match file_of(self.record(ids.last()).piece) {
                Some(file) => rest.push(file),
                None => rest,
            }
        }
    }

    /// What `remove` does: it fails with `NotFound` where an id names no
    /// record, else with `StillInUse` where a record is still needed and
    /// removal is not forced; else the records under `ids` leave the ledger,
    /// and their files are returned.
    pub open spec fn removed(self, ids: Seq<u32>, force: bool) -> Result<
        (DataView, Seq<Seq<char>>),
        Error,
    > {
        if exists|k: int| 0 <= k < ids.len() && !self.has(#[trigger] ids[k]) {
            Err(Error::NotFound)
        } else if !force && exists|k: int|
            0 <= k < ids.len() && !self.record(#[trigger] ids[k]).unused() {
            Err(Error::StillInUse)
        } else {
            let left = without(self.ids, self.records, ids, self.ids.len() as int);
            Ok((DataView { ids: left.0, records: left.1, ..self }, self.files(ids)))
        }
    }
}

impl View for Data {
    type V = DataView;

    closed spec fn view(&self) -> DataView {
        DataView {
            ids: self.ids@,
            records: records_view(self.pieces@),
            machines: machines_data_view(self.machines@),
        }
    }
}

impl Data {
    /// An empty ledger.
    pub fn init_new() -> (data: Self)
        ensures
            data@ == (DataView { ids: Seq::empty(), records: Seq::empty(), machines: Seq::empty() }),
            data@.wf(),
    {
        let data = Self { ids: Vec::new(), pieces: Vec::new(), machines: Vec::new() };
        proof {
            assert(data@.records =~= Seq::empty());
            assert(data@.machines =~= Seq::empty());
            assert(machine_keys(data@.machines) =~= Seq::empty());
        }
        data
    }

    /// The ids of the records, in the order in which they were inserted.
    pub fn ids(&self) -> (ids: &Vec<u32>)
        ensures
            ids@ == self@.ids,
    {
        &self.ids
    }

    /// The records, in the order in which they were inserted.
    pub fn pieces(&self) -> (pieces: &Vec<FullPiece>)
        ensures
            records_view(pieces@) == self@.records,
    {
        &self.pieces
    }

    /// What the ledger tells about each machine.
    pub fn machine_data(&self) -> (machines: &Vec<(Machine, MachineData)>)
        ensures
            machines_data_view(machines@) == self@.machines,
    {
        &self.machines
    }

    /// The machines that the ledger knows.
    pub fn machines(&self) -> (machines: Vec<Machine>)
        ensures
            machines@ == machine_keys(self@.machines),
    {
        let mut machines: Vec<Machine> = Vec::new();
        let mut i: usize = 0;
        while i < self.machines.len()
            invariant
                i <= self.machines.len(),
                machines@.len() == i,
                forall|j: int| 0 <= j < i ==> machines@[j] == self.machines@[j].0,
            decreases self.machines.len() - i,
        {
            machines.push(self.machines[i].0);
            i += 1;
        }
        proof {
            assert(machines@ =~= machine_keys(self@.machines));
        }
        machines
    }

    /// Where the record under `id` stands.
    pub fn position(&self, id: u32) -> (at: Option<usize>)
        ensures
            match at {
                Some(i) => i < self@.ids.len() && self@.ids[i as int] == id,
                None => !self@.has(id),
            },
            self@.ids.no_duplicates() ==> (at matches Some(i) ==> i == self@.ids.index_of(id)),
    {
        let mut i: usize = 0;
        while i < self.ids.len()
            invariant
                i <= self.ids.len(),
                forall|j: int| 0 <= j < i ==> self.ids@[j] != id,
            decreases self.ids.len() - i,
        {
            if self.ids[i] == id {
                proof {
                    if self@.ids.no_duplicates() {
                        assert(self@.ids.contains(id));
                        let k = self@.ids.index_of(id);
                        assert(self@.ids[k] == id);
                    }
                }
                return Some(i);
            }
            i += 1;
        }
        None
    }

    /// The record under `id`.
    pub fn get(&self, id: u32) -> (record: Option<&FullPiece>)
        requires
            self@.wf(),
        ensures
            match record {
                Some(r) => self@.has(id) && r@ == self@.record(id) && r@.wf(),
                None => !self@.has(id),
            },
    {
        match self.position(id) {
            Some(at) => {
                proof {
                    assert(self@.records[at as int].wf());
                }
                Some(&self.pieces[at])
            },
            None => None,
        }
    }

    /// The id that `piece` names; `NotFound` where it names none.
    pub fn resolve(&self, piece: &PieceRef) -> (id: Result<u32, Error>)
        ensures
            match id {
                Ok(v) => self@.resolved(*piece) == Some(v),
                Err(e) => e == Error::NotFound && self@.resolved(*piece).is_none(),
            },
    {
        match piece {
            PieceRef::Id(id) => match self.position(*id) {
                Some(_) => Ok(*id),
                None => Err(Error::NotFound),
            },
            PieceRef::Last => {
                let n = self.ids.len();
                if n > 0 {
                    Ok(self.ids[n - 1])
                } else {
                    Err(Error::NotFound)
                }
            },
        }
    }

    /// Puts `piece` under `id`. A record that stood under that id keeps its
    /// place, is replaced and returned; else the new record comes last.
    pub fn insert(&mut self, id: u32, piece: FullPiece) -> (replaced: Option<FullPiece>)
        requires
            old(self)@.wf(),
            piece@.wf(),
        ensures
            final(self)@ == old(self)@.inserted(id, piece@),
            final(self)@.wf(),
            match replaced {
                Some(r) => old(self)@.has(id) && r@ == old(self)@.record(id),
                None => !old(self)@.has(id),
            },
    {
        match self.position(id) {
            Some(at) => {
                let ghost new = piece@;
                let mut piece = piece;
                let ghost before = records_view(self.pieces@);
                std::mem::swap(&mut self.pieces[at], &mut piece);
                proof {
                    assert(records_view(self.pieces@) =~= before.update(at as int, new));
                    assert forall|i: int| 0 <= i < self@.records.len() implies (
                    #[trigger] self@.records[i]).wf() by {
                        if i != at {
                            assert(before[i].wf());
                        }
                    }
                }
                Some(piece)
            },
            None => {
                let ghost before = records_view(self.pieces@);
                self.ids.push(id);
                self.pieces.push(piece);
                proof {
                    assert(records_view(self.pieces@) =~= before.push(piece@));
                    assert forall|i: int| 0 <= i < self@.records.len() implies (
                    #[trigger] self@.records[i]).wf() by {
                        if i < before.len() {
                            assert(before[i].wf());
                        }
                    }
                }
                None
            },
        }
    }
}

/// Whether `id` occurs in `ids`.
pub fn contains_id(ids: &Vec<u32>, id: u32) -> (found: bool)
    ensures
        found == ids@.contains(id),
{
    let mut i: usize = 0;
    while i < ids.len()
        invariant
            i <= ids.len(),
            forall|j: int| 0 <= j < i ==> ids@[j] != id,
        decreases ids.len() - i,
    {
        if ids[i] == id {
            return true;
        }
        i += 1;
    }
    false
}

/// The ids of a ledger at the positions given.
pub open spec fn ids_at(ids: Seq<u32>, positions: Seq<int>) -> Seq<u32> {
    Seq::new(positions.len(), |k: int| ids[positions[k]])
}

impl DataView {
    /// What `do_todo_one` does: one step of a run on the record under `id`
    /// alone.
    pub open spec fn stepped_one(
        self,
        id: u32,
        machine: Machine,
        dry_run: bool,
        test_run: bool,
        last: Option<Result<(), Error>>,
    ) -> (DataView, StepView) {
        if !self.has(id) {
            (self, StepView::Finished(Err(Error::NotFound)))
        } else {
            let at = self.ids.index_of(id);
            let after = step_of(seq![self.records[at]], machine, dry_run, test_run, last);
            (DataView { records: self.records.update(at, after.0[0]), ..self }, after.1)
        }
    }

    /// What `undo` does to the record under `id`.
    pub open spec fn undone(self, id: u32, machine: Machine, done_here: bool) -> (
        DataView,
        Result<(), Error>,
    ) {
        if !self.has(id) {
            (self, Err(Error::NotFound))
        } else if self.record(id).undone_on.is_some() {
            (self, Err(Error::AlreadyUndone))
        } else {
            (
                DataView {
                    records: self.records.update(
                        self.ids.index_of(id),
                        self.record(id).marked_for_undo(machine, done_here),
                    ),
                    ..self
                },
                Ok(()),
            )
        }
    }

    /// What `edit` does to the record that `piece` names.
    pub open spec fn edited(
        self,
        piece: PieceRef,
        comment: Option<Seq<char>>,
        remove_comment: bool,
        undo: Option<Seq<char>>,
        remove_undo: bool,
    ) -> (DataView, Result<(), Error>) {
        match self.resolved(piece) {
            None => (self, Err(Error::NotFound)),
            Some(id) => {
                let after = self.record(id).edited(comment, remove_comment, undo, remove_undo);
                (DataView { records: self.records.update(self.ids.index_of(id), after.0), ..self }, after.1)
            },
        }
    }
}

/// Taking records out of a ledger leaves a ledger: what is left are records of
/// the ledger under their ids, none of them under an id that was to go, and no
/// id twice.
pub proof fn lemma_without(all_ids: Seq<u32>, records: Seq<FullPieceView>, ids: Seq<u32>, n: int)
    requires
        0 <= n <= all_ids.len(),
        all_ids.len() == records.len(),
        all_ids.no_duplicates(),
        all_wf(records),
    ensures
        without(all_ids, records, ids, n).0.len() == without(all_ids, records, ids, n).1.len(),
        without(all_ids, records, ids, n).0.no_duplicates(),
        all_wf(without(all_ids, records, ids, n).1),
        forall|k: int|
            0 <= k < without(all_ids, records, ids, n).0.len() ==> exists|j: int|
                0 <= j < n && all_ids[j] == #[trigger] without(all_ids, records, ids, n).0[k]
                    && records[j] == without(all_ids, records, ids, n).1[k] && !ids.contains(
                    all_ids[j],
                ),
        forall|j: int|
            0 <= j < n && !ids.contains(all_ids[j]) ==> without(all_ids, records, ids, n).0.contains(
                #[trigger] all_ids[j],
            ),
    decreases n,
{
    let left = without(all_ids, records, ids, n);
    if n > 0 {
        let rest = without(all_ids, records, ids, n - 1);
        lemma_without(all_ids, records, ids, n - 1);
        assert forall|k: int| 0 <= k < left.0.len() implies exists|j: int|
            0 <= j < n && all_ids[j] == #[trigger] left.0[k] && records[j] == left.1[k]
                && !ids.contains(all_ids[j]) by {
            if k < rest.0.len() {
                let j = choose|j: int|
                    0 <= j < n - 1 && all_ids[j] == rest.0[k] && records[j] == rest.1[k]
                        && !ids.contains(all_ids[j]);
                assert(all_ids[j] == left.0[k]);
            } else {
                assert(all_ids[n - 1] == left.0[k]);
            }
        }
        assert forall|a: int, b: int| 0 <= a < left.0.len() && 0 <= b < left.0.len() && a
            != b implies left.0[a] != left.0[b] by {
            let ja = choose|j: int|
                0 <= j < n && all_ids[j] == left.0[a] && records[j] == left.1[a] && !ids.contains(
                    all_ids[j],
                );
            let jb = choose|j: int|
                0 <= j < n && all_ids[j] == left.0[b] && records[j] == left.1[b] && !ids.contains(
                    all_ids[j],
                );
            if a < rest.0.len() && b < rest.0.len() {
                assert(rest.0[a] != rest.0[b]);
            } else if a < rest.0.len() {
                let j = choose|j: int|
                    0 <= j < n - 1 && all_ids[j] == rest.0[a] && records[j] == rest.1[a]
                        && !ids.contains(all_ids[j]);
                assert(all_ids[j] != all_ids[n - 1]);
            } else if b < rest.0.len() {
                let j = choose|j: int|
                    0 <= j < n - 1 && all_ids[j] == rest.0[b] && records[j] == rest.1[b]
                        && !ids.contains(all_ids[j]);
                assert(all_ids[j] != all_ids[n - 1]);
            }
        }
        assert forall|k: int| 0 <= k < left.1.len() implies (#[trigger] left.1[k]).wf() by {
            if k < rest.1.len() {
                assert(rest.1[k].wf());
            } else {
                assert(records[n - 1].wf());
            }
        }
        assert forall|j: int| 0 <= j < n && !ids.contains(all_ids[j]) implies left.0.contains(
            #[trigger] all_ids[j],
        ) by {
            if j < n - 1 {
                assert(rest.0.contains(all_ids[j]));
                let k = choose|k: int| 0 <= k < rest.0.len() && rest.0[k] == all_ids[j];
                assert(left.0[k] == all_ids[j]);
            } else {
                assert(left.0[left.0.len() - 1] == all_ids[j]);
            }
        }
    }
}

impl Data {
    /// A ledger of these parts, as they come out of a ledger file. It fails
    /// with `InvariantViolation` where an id or a machine occurs twice.
    pub fn from_parts(
        pieces: Vec<(u32, FullPiece)>,
        machines: Vec<(Machine, MachineData)>,
    ) -> (data: Result<Self, Error>)
        requires
            forall|i: int| 0 <= i < pieces@.len() ==> (#[trigger] pieces@[i]).1@.wf(),
        ensures
            match data {
                Ok(d) => {
                    &&& d@.ids == Seq::new(pieces@.len(), |i: int| pieces@[i].0)
                    &&& d@.records == Seq::new(pieces@.len(), |i: int| pieces@[i].1@)
                    &&& d@.machines == machines_data_view(machines@)
                    &&& d@.wf()
                },
                Err(e) => e == Error::InvariantViolation && !(Seq::new(
                    pieces@.len(),
                    |i: int| pieces@[i].0,
                ).no_duplicates() && machine_keys(machines_data_view(machines@)).no_duplicates()),
            },
    {
        let mut data = Self::init_new();
        let ghost all = pieces@;
        let ghost all_ids = Seq::new(pieces@.len(), |i: int| pieces@[i].0);
        let ghost all_records = Seq::new(pieces@.len(), |i: int| pieces@[i].1@);
        for entry in it: pieces
            invariant
                it.seq() == all,
                all_ids == Seq::new(all.len(), |i: int| all[i].0),
                all_records == Seq::new(all.len(), |i: int| all[i].1@),
                forall|i: int| 0 <= i < all.len() ==> (#[trigger] all[i]).1@.wf(),
                data@.ids == all_ids.take(it.index() as int),
                data@.records == all_records.take(it.index() as int),
                data@.machines == Seq::<(Machine, Seq<char>)>::empty(),
                data@.wf(),
        {
            let (id, piece) = entry;
            assert(all[it.index() as int].1@.wf());
            if contains_id(&data.ids, id) {
                proof {
                    let j = choose|j: int| 0 <= j < data@.ids.len() && data@.ids[j] == id;
                    assert(all_ids[j] == all_ids[it.index() as int]);
                }
                return Err(Error::InvariantViolation);
            }
            data.insert(id, piece);
            proof {
                assert(data@.ids =~= all_ids.take(it.index() + 1));
                assert(data@.records =~= all_records.take(it.index() + 1));
            }
        }
        proof {
            assert(all_ids.take(all.len() as int) =~= all_ids);
            assert(all_records.take(all.len() as int) =~= all_records);
        }
        let ghost keys = machine_keys(machines_data_view(machines@));
        let mut i: usize = 0;
        while i < machines.len()
            invariant
                i <= machines.len(),
                keys == machine_keys(machines_data_view(machines@)),
                forall|a: int, b: int| 0 <= a < b < i ==> keys[a] != keys[b],
            decreases machines.len() - i,
        {
            let mut j: usize = 0;
            while j < i
                invariant
                    j <= i,
                    i < machines.len(),
                    keys == machine_keys(machines_data_view(machines@)),
                    forall|a: int| 0 <= a < j ==> keys[a] != keys[i as int],
                decreases i - j,
            {
                if machines[j].0 == machines[i].0 {
                    proof {
                        assert(keys[j as int] == keys[i as int]);
                    }
                    return Err(Error::InvariantViolation);
                }
                j += 1;
            }
            i += 1;
        }
        data.machines = machines;
        Ok(data)
    }

    /// Tells `data` about `machine`. What was told about it before is replaced
    /// and returned.
    pub fn insert_machine(&mut self, machine: Machine, data: MachineData) -> (replaced: Option<MachineData>)
        requires
            old(self)@.wf(),
        ensures
            final(self)@ == old(self)@.with_machine(machine, data@),
            final(self)@.wf(),
            replaced.is_some() == machine_keys(old(self)@.machines).contains(machine),
    {
        let ghost keys = machine_keys(self@.machines);
        let ghost told = data@;
        let mut i: usize = 0;
        while i < self.machines.len()
            invariant
                i <= self.machines.len(),
                *self == *old(self),
                self@.wf(),
                told == data@,
                keys == machine_keys(self@.machines),
                forall|j: int| 0 <= j < i ==> keys[j] != machine,
            decreases self.machines.len() - i,
        {
            if self.machines[i].0 == machine {
                let mut entry = (machine, data);
                let ghost before = self@.machines;
                std::mem::swap(&mut self.machines[i], &mut entry);
                proof {
                    assert(keys[i as int] == machine);
                    assert(keys.contains(machine));
                    let at = keys.index_of(machine);
                    assert(keys[at] == machine);
                    assert(at == i);
                    assert(self@.machines =~= before.update(i as int, (machine, told)));
                    assert(machine_keys(self@.machines) =~= keys);
                }
                return Some(entry.1);
            }
            i += 1;
        }
        let ghost before = self@.machines;
        self.machines.push((machine, data));
        proof {
            assert(self@.machines =~= before.push((machine, told)));
            assert(machine_keys(self@.machines) =~= keys.push(machine));
        }
        None
    }

    /// One step of a run that brings `machine` up to date with the whole
    /// ledger; see `FullPiece::do_todo`.
    pub fn do_todo(
        &mut self,
        machine: &Machine,
        execution_data: &ExecutionData,
        last: Option<Result<(), Error>>,
    ) -> (step: Step)
        requires
            old(self)@.wf(),
        ensures
            (final(self)@.records, step@) == step_of(
                old(self)@.records,
                *machine,
                execution_data.dry_run,
                execution_data.test_run,
                last,
            ),
            final(self)@.ids == old(self)@.ids,
            final(self)@.machines == old(self)@.machines,
            final(self)@.wf(),
    {
        proof {
            lemma_step_only_adds(
                self@.records,
                *machine,
                execution_data.dry_run,
                execution_data.test_run,
                last,
            );
        }
        FullPiece::do_todo(&mut self.pieces, machine, execution_data, last)
    }

    /// One step of a run that brings `machine` up to date with the record
    /// under `id` and with no other; see `FullPiece::do_todo`. Where no record
    /// stands under `id` the run ends with `NotFound`.
    pub fn do_todo_one(
        &mut self,
        id: u32,
        machine: &Machine,
        execution_data: &ExecutionData,
        last: Option<Result<(), Error>>,
    ) -> (step: Step)
        requires
            old(self)@.wf(),
        ensures
            (final(self)@, step@) == old(self)@.stepped_one(
                id,
                *machine,
                execution_data.dry_run,
                execution_data.test_run,
                last,
            ),
            final(self)@.wf(),
    {
        match self.position(id) {
            None => Step::Finished(Err(Error::NotFound)),
            Some(at) => {
                let ghost before = self@.records;
                assert(before[at as int].wf());
                let mut one: Vec<FullPiece> = Vec::new();
                one.push(self.pieces.remove(at));
                proof {
                    assert(records_view(one@) =~= seq![before[at as int]]);
                    lemma_step_only_adds(
                        seq![before[at as int]],
                        *machine,
                        execution_data.dry_run,
                        execution_data.test_run,
                        last,
                    );
                }
                let step = FullPiece::do_todo(&mut one, machine, execution_data, last);
                let ghost after = records_view(one@);
                assert(after.len() == 1);
                assert(one@.len() == 1);
                let record = one.pop().unwrap();
                assert(record@ == after[0]);
                self.pieces.insert(at, record);
                proof {
                    assert(self@.records =~= before.update(at as int, after[0]));
                    assert forall|i: int| 0 <= i < self@.records.len() implies (
                    #[trigger] self@.records[i]).wf() by {
                        if i != at {
                            assert(before[i].wf());
                        }
                    }
                }
                step
            },
        }
    }

    /// The ids of the ledger that are among `ids`, in the order of the ledger
    /// and each once. It fails with `NotFound` where one of `ids` names no
    /// record.
    pub fn selected(&self, ids: &Vec<u32>) -> (chosen: Result<Vec<u32>, Error>)
        ensures
            match chosen {
                Ok(c) => c@ == selection(self@.ids, ids@, self@.ids.len() as int) && forall|k: int|
                    0 <= k < ids@.len() ==> self@.has(#[trigger] ids@[k]),
                Err(e) => e == Error::NotFound && exists|k: int|
                    0 <= k < ids@.len() && !self@.has(#[trigger] ids@[k]),
            },
    {
        let mut k: usize = 0;
        while k < ids.len()
            invariant
                k <= ids.len(),
                forall|j: int| 0 <= j < k ==> self@.has(#[trigger] ids@[j]),
            decreases ids.len() - k,
        {
            if !contains_id(&self.ids, ids[k]) {
                return Err(Error::NotFound);
            }
            k += 1;
        }
        let mut chosen: Vec<u32> = Vec::new();
        let mut i: usize = 0;
        while i < self.ids.len()
            invariant
                i <= self.ids.len(),
                chosen@ == selection(self@.ids, ids@, i as int),
            decreases self.ids.len() - i,
        {
            if contains_id(ids, self.ids[i]) {
                chosen.push(self.ids[i]);
            }
            i += 1;
        }
        Ok(chosen)
    }

    /// Marks the record under `id` for undo; see `FullPiece::undo`. It fails
    /// with `NotFound` where no record stands under `id`.
    pub fn undo(
        &mut self,
        id: u32,
        args: &UndoArgs,
        execution_data: &ExecutionData,
    ) -> (result: Result<(), Error>)
        requires
            old(self)@.wf(),
        ensures
            (final(self)@, result) == old(self)@.undone(id, execution_data.machine, args.done_here),
            final(self)@.wf(),
    {
        match self.position(id) {
            None => Err(Error::NotFound),
            Some(at) => {
                let ghost before = self@.records;
                assert(before[at as int].wf());
                assert(at == self@.ids.index_of(id));
                assert(self@.has(id));
                let result = match self.pieces[at].undo(args, execution_data) {
                    Ok(_) => Ok(()),
                    Err(e) => Err(e),
                };
                proof {
                    if result.is_ok() {
                        assert(self@.records =~= before.update(
                            at as int,
                            before[at as int].marked_for_undo(execution_data.machine, args.done_here),
                        ));
                    } else {
                        assert(self@.records =~= before);
                    }
                    assert forall|i: int| 0 <= i < self@.records.len() implies (
                    #[trigger] self@.records[i]).wf() by {
                        if i != at {
                            assert(before[i].wf());
                        }
                    }
                }
                result
            },
        }
    }

    /// Edits the record that the arguments name; see `FullPiece::edit`. It
    /// fails with `NotFound` where they name none.
    pub fn edit(&mut self, args: &EditArgs) -> (result: Result<(), Error>)
        requires
            old(self)@.wf(),
        ensures
            (final(self)@, result) == old(self)@.edited(
                args.piece,
                crate::text::text_view(args.comment),
                args.remove_comment,
                crate::text::text_view(args.undo),
                args.remove_undo,
            ),
            final(self)@.wf(),
    {
        let id = match self.resolve(&args.piece) {
            Ok(id) => id,
            Err(e) => {
                return Err(e);
            },
        };
        match self.position(id) {
            None => Err(Error::NotFound),
            Some(at) => {
                let ghost before = self@.records;
                assert(before[at as int].wf());
                let result = self.pieces[at].edit(args);
                proof {
                    assert(self@.records =~= before.update(at as int, self.pieces@[at as int]@));
                    assert forall|i: int| 0 <= i < self@.records.len() implies (
                    #[trigger] self@.records[i]).wf() by {
                        if i != at {
                            assert(before[i].wf());
                        }
                    }
                }
                result
            },
        }
    }

    /// Takes the records under the ids of `args` out of the ledger and returns
    /// where their tracked files live, relative to the files subtree. Nothing
    /// is removed where an id names no record, or where a record is still
    /// needed and removal is not forced.
    pub fn remove(&mut self, args: &RemoveArgs) -> (files: Result<Vec<String>, Error>)
        requires
            old(self)@.wf(),
        ensures
            match files {
                Ok(f) => old(self)@.removed(args.piece_ids@, args.force) == Ok::<
                    (DataView, Seq<Seq<char>>),
                    Error,
                >((final(self)@, f.deep_view())),
                Err(e) => old(self)@.removed(args.piece_ids@, args.force) == Err::<
                    (DataView, Seq<Seq<char>>),
                    Error,
                >(e) && final(self)@ == old(self)@,
            },
            final(self)@.wf(),
    {
        let ids = &args.piece_ids;
        let mut k: usize = 0;
        while k < ids.len()
            invariant
                k <= ids.len(),
                *self == *old(self),
                self@.wf(),
                ids == &args.piece_ids,
                forall|j: int| 0 <= j < k ==> self@.has(#[trigger] ids@[j]),
            decreases ids.len() - k,
        {
            if !contains_id(&self.ids, ids[k]) {
                assert(!self@.has(ids@[k as int]));
                return Err(Error::NotFound);
            }
            k += 1;
        }
        if !args.force {
            let mut k: usize = 0;
            while k < ids.len()
                invariant
                    k <= ids.len(),
                    *self == *old(self),
                    self@.wf(),
                    ids == &args.piece_ids,
                    !args.force,
                    forall|j: int| 0 <= j < ids@.len() ==> self@.has(#[trigger] ids@[j]),
                    forall|j: int| 0 <= j < k ==> self@.record(#[trigger] ids@[j]).unused(),
                decreases ids.len() - k,
            {
                assert(self@.has(ids@[k as int]));
                match self.get(ids[k]) {
                    Some(record) => {
                        if !record.unused() {
                            assert(!self@.record(ids@[k as int]).unused());
                            return Err(Error::StillInUse);
                        }
                    },
                    None => {},
                }
                k += 1;
            }
        }
        let mut files: Vec<String> = Vec::new();
        let mut k: usize = 0;
        while k < ids.len()
            invariant
                k <= ids.len(),
                *self == *old(self),
                self@.wf(),
                forall|j: int| 0 <= j < ids@.len() ==> self@.has(#[trigger] ids@[j]),
                files.deep_view() == self@.files(ids@.take(k as int)),
            decreases ids.len() - k,
        {
            assert(self@.has(ids@[k as int]));
            proof {
                assert(ids@.take(k + 1).drop_last() =~= ids@.take(k as int));
                assert(ids@.take(k + 1).last() == ids@[k as int]);
            }
            let ghost so_far = files.deep_view();
            match self.get(ids[k]) {
                Some(record) => {
                    match record.file() {
                        Some(path) => {
                            files.push(path.to_owned());
                            proof {
                                assert(files.deep_view() =~= so_far.push(path@));
                            }
                        },
                        None => {},
                    }
                },
                None => {},
            }
            k += 1;
        }
        proof {
            assert(ids@.take(ids@.len() as int) =~= ids@);
        }
        let mut left_ids: Vec<u32> = Vec::new();
        let mut left: Vec<FullPiece> = Vec::new();
        let mut i: usize = 0;
        while i < self.ids.len()
            invariant
                i <= self.ids.len(),
                *self == *old(self),
                self.ids@.len() == self.pieces@.len(),
                (left_ids@, records_view(left@)) == without(
                    self@.ids,
                    self@.records,
                    ids@,
                    i as int,
                ),
            decreases self.ids.len() - i,
        {
            let ghost so_far = records_view(left@);
            if !contains_id(ids, self.ids[i]) {
                left_ids.push(self.ids[i]);
                left.push(self.pieces[i].clone());
                proof {
                    assert(records_view(left@) =~= so_far.push(self@.records[i as int]));
                }
            }
            i += 1;
        }
        proof {
            lemma_without(self@.ids, self@.records, ids@, self@.ids.len() as int);
        }
        self.ids = left_ids;
        self.pieces = left;
        Ok(files)
    }

    /// The lines of a listing, one for each record in the order of the ledger.
    pub fn list(&self) -> (lines: Vec<Listing>)
        requires
            self@.wf(),
        ensures
            lines@.len() == self@.ids.len(),
            forall|i: int|
                0 <= i < lines@.len() ==> (#[trigger] lines@[i])@ == listing_of(
                    self@.ids[i],
                    self@.records[i],
                ),
    {
        let mut lines: Vec<Listing> = Vec::new();
        let mut i: usize = 0;
        while i < self.ids.len()
            invariant
                i <= self.ids.len(),
                self.ids@.len() == self.pieces@.len(),
                lines@.len() == i,
                forall|j: int|
                    0 <= j < i ==> (#[trigger] lines@[j])@ == listing_of(
                        self@.ids[j],
                        self@.records[j],
                    ),
            decreases self.ids.len() - i,
        {
            lines.push(self.pieces[i].listing(self.ids[i]));
            i += 1;
        }
        lines
    }

    /// The ids of the records that are to be executed on `machine`, and of
    /// those that are to be undone, each in the order of the ledger.
    pub fn pending(&self, machine: &Machine) -> (ids: (Vec<u32>, Vec<u32>))
        requires
            self@.wf(),
        ensures
            ids.0@ == ids_at(
                self@.ids,
                due(self@.records, *machine, Todo::Execute, self@.records.len() as int),
            ),
            ids.1@ == ids_at(
                self@.ids,
                due(self@.records, *machine, Todo::Undo, self@.records.len() as int),
            ),
    {
        let (to_execute, to_undo) = FullPiece::get_todo(&self.pieces, machine);
        (self.ids_of(&to_execute), self.ids_of(&to_undo))
    }

    fn ids_of(&self, worklist: &Vec<(&PieceEnum, usize)>) -> (ids: Vec<u32>)
        requires
            forall|k: int| 0 <= k < worklist@.len() ==> (#[trigger] worklist@[k]).1 < self.ids@.len(),
        ensures
            ids@ == ids_at(self@.ids, positions(worklist@)),
    {
        let mut ids: Vec<u32> = Vec::new();
        let mut k: usize = 0;
        while k < worklist.len()
            invariant
                k <= worklist.len(),
                forall|j: int|
                    0 <= j < worklist@.len() ==> (#[trigger] worklist@[j]).1 < self.ids@.len(),
                ids@.len() == k,
                forall|j: int| 0 <= j < k ==> ids@[j] == self.ids@[worklist@[j].1 as int],
            decreases worklist.len() - k,
        {
            assert(worklist@[k as int].1 < self.ids@.len());
            ids.push(self.ids[worklist[k].1]);
            k += 1;
        }
        proof {
            assert(ids@ =~= ids_at(self@.ids, positions(worklist@)));
        }
        ids
    }
}

} // verus!