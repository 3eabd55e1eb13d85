//! What the operations are given on the command line, how record ids are
//! written and read, and the steps of the operations that ask the user.

use crate::errors::Error;
use crate::repo::{below_files, Repo};
use crate::text::{hex_char, hex_digit, read_hex_digit, same_text, write_hex_digit};
use vstd::prelude::*;

verus! {

/// The kinds of piece that can be asked for by name.
#[derive(Debug, Clone, Copy, PartialEq, Eq, Structural)]
pub enum Piece {
    /// Executes a command in a shell. Expects a command as value.
    Command,
    /// Installs an apt package. Expects a package name as value.
    Apt,
    /// Links a file to the repository. Expects an absolute path as value.
    File,
    /// Asks the user to act by hand. Expects a message for the user as value.
    Manual,
}

/// What the `add` operation is given.
#[derive(Debug)]
pub struct AddArgs {
    /// An optional comment that describes the piece.
    pub comment: Option<String>,
    /// The kind of the piece; where it is absent the kind is read off the value.
    pub piece: Option<Piece>,
    /// The value of the piece: the command, the package, and so on.
    pub value: Vec<String>,
    /// Run the piece on this machine at once.
    pub not_done_here: bool,
}

/// What the `undo` operation is given.
#[derive(Debug)]
pub struct UndoArgs {
    pub piece_ids: Vec<u32>,
    /// Do not undo the piece on this machine: that has been done already.
    pub done_here: bool,
}

/// What the `remove` operation is given.
#[derive(Debug)]
pub struct RemoveArgs {
    pub piece_ids: Vec<u32>,
    /// Remove the piece even if it is not unused.
    pub force: bool,
}

/// A record named by its id, or the record that was inserted last.
#[derive(Debug, Clone, Copy, PartialEq, Eq, Structural)]
pub enum PieceRef {
    Id(u32),
    Last,
}

/// What the `edit` operation is given.
#[derive(Debug)]
pub struct EditArgs {
    /// The new comment.
    pub comment: Option<String>,
    /// Remove the comment.
    pub remove_comment: bool,
    /// The record to edit.
    pub piece: PieceRef,
    /// The new undo command of a command piece.
    pub undo: Option<String>,
    /// Remove the undo command.
    pub remove_undo: bool,
}

/// What every operation is given.
#[derive(Debug)]
pub struct TopLevelArgs {
    /// The log level to use.
    pub log_level: String,
    /// Output debug logs, whatever `log_level` says.
    pub verbose: bool,
    /// The root of the installation.
    pub path: String,
    /// Execute nothing, but mark pieces as executed.
    pub test_run: bool,
}

impl TopLevelArgs {
    /// The log level that is in force.
    pub fn effective_log_level(&self) -> (level: &str)
        ensures
            level@ == (if self.verbose {
                "debug"@
            } else {
                self.log_level@
            }),
    {
        if self.verbose {
            "debug"
        } else {
            self.log_level.as_str()
        }
    }

    /// Arguments for a trial: quiet, rooted at `falconf_path`.
    pub fn new_testing(falconf_path: String, test_run: bool) -> (args: Self)
        ensures
            args.log_level@ == Seq::<char>::empty(),
            !args.verbose,
            args.path@ == falconf_path@,
            args.test_run == test_run,
    {
        Self { log_level: String::new(), verbose: false, path: falconf_path, test_run }
    }
}

/// Whether a text is a record id: eight hexadecimal digits.
pub open spec fn is_id_text(text: Seq<char>) -> bool {
    &&& text.len() == 8
    &&& forall|i: int| 0 <= i < 8 ==> (#[trigger] hex_digit(text[i])).is_some()
}

/// The weight of the digit at `position` in a record id, the first digit
/// being the most significant.
pub open spec fn id_weight(position: int) -> int {
    if position == 0 {
        0x1000_0000
    } else if position == 1 {
        0x100_0000
    } else if position == 2 {
        0x10_0000
    } else if position == 3 {
        0x1_0000
    } else if position == 4 {
        0x1000
    } else if position == 5 {
        0x100
    } else if position == 6 {
        0x10
    } else {
        1
    }
}

/// The number that eight hexadecimal digits denote.
pub open spec fn id_value(text: Seq<char>) -> int {
    hex_digit(text[0]).unwrap() * id_weight(0) + hex_digit(text[1]).unwrap() * id_weight(1)
        + hex_digit(text[2]).unwrap() * id_weight(2) + hex_digit(text[3]).unwrap() * id_weight(3)
        + hex_digit(text[4]).unwrap() * id_weight(4) + hex_digit(text[5]).unwrap() * id_weight(5)
        + hex_digit(text[6]).unwrap() * id_weight(6) + hex_digit(text[7]).unwrap() * id_weight(7)
}

/// The eight lower-case hexadecimal digits of a record id.
pub open spec fn id_text(id: u32) -> Seq<char> {
    Seq::new(8, |i: int| hex_char((id as int / id_weight(i)) % 16))
}

/// Reads the hexadecimal digit at `position`.
fn digit_at(s: &str, position: usize) -> (digit: Option<u32>)
    requires
        position < s@.len(),
    ensures
        match digit {
            Some(v) => hex_digit(s@[position as int]) == Some(v as int) && v < 16,
            None => hex_digit(s@[position as int]).is_none(),
        },
{
    read_hex_digit(s.get_char(position))
}

/// Reads a record id: exactly eight hexadecimal digits, of either case.
pub fn parse_piece_id(s: &str) -> (id: Result<u32, Error>)
    ensures
        match id {
            Ok(v) => is_id_text(s@) && v as int == id_value(s@),
            Err(e) => e == Error::InvalidId && !is_id_text(s@),
        },
{
    if s.unicode_len() != 8 {
        return Err(Error::InvalidId);
    }
    let mut digits: Vec<u32> = Vec::new();
    let mut i: usize = 0;
    while i < 8
        invariant
            i <= 8,
            s@.len() == 8,
            digits@.len() == i,
            forall|j: int|
                0 <= j < i ==> #[trigger] hex_digit(s@[j]) == Some(digits@[j] as int) && digits@[j]
                    < 16,
        decreases 8 - i,
    {
        match digit_at(s, i) {
            Some(digit) => {
                digits.push(digit);
            },
            None => {
                return Err(Error::InvalidId);
            },
        }
        i += 1;
    }
    proof {
        assert(hex_digit(s@[0]) == Some(digits@[0] as int));
        assert(hex_digit(s@[1]) == Some(digits@[1] as int));
        assert(hex_digit(s@[2]) == Some(digits@[2] as int));
        assert(hex_digit(s@[3]) == Some(digits@[3] as int));
        assert(hex_digit(s@[4]) == Some(digits@[4] as int));
        assert(hex_digit(s@[5]) == Some(digits@[5] as int));
        assert(hex_digit(s@[6]) == Some(digits@[6] as int));
        assert(hex_digit(s@[7]) == Some(digits@[7] as int));
    }
    Ok(
        digits[0] * 0x1000_0000 + digits[1] * 0x100_0000 + digits[2] * 0x10_0000 + digits[3]
            * 0x1_0000 + digits[4] * 0x1000 + digits[5] * 0x100 + digits[6] * 0x10 + digits[7],
    )
}

/// Writes a record id as eight lower-case hexadecimal digits.
pub fn format_id(id: u32) -> (text: String)
    ensures
        text@ == id_text(id),
        is_id_text(text@),
        id_value(text@) == id,
{
    let mut text = String::new();
    let mut i: usize = 0;
    let mut rest: u32 = id;
    let mut weight: u32 = 0x1000_0000;
    while i < 8
        invariant
            i <= 8,
            text@.len() == i,
            i < 8 ==> weight as int == id_weight(i as int),
            forall|j: int| 0 <= j < i ==> text@[j] == hex_char((id as int / id_weight(j)) % 16),
        decreases 8 - i,
    {
        let digit: u32 = (id / weight) % 16;
        text.push(write_hex_digit(digit));
        if i < 7 {
            weight = weight / 16;
        }
        i += 1;
    }
    proof {
        assert(text@ =~= id_text(id));
        lemma_id_text_reads_back(id);
    }
    text
}

/// A record id that is written and read again is the same id.
pub proof fn lemma_id_text_reads_back(id: u32)
    ensures
        is_id_text(id_text(id)),
        id_value(id_text(id)) == id,
{
    let t = id_text(id);
    assert forall|i: int| 0 <= i < 8 implies (#[trigger] hex_digit(t[i])).is_some() && hex_digit(
        t[i],
    ).unwrap() == (id as int / id_weight(i)) % 16 by {
        let v = (id as int / id_weight(i)) % 16;
        assert(0 <= v < 16);
        assert(t[i] == hex_char(v));
    }
    assert((id / 0x1000_0000u32) % 16u32 * 0x1000_0000u32 + (id / 0x100_0000u32) % 16u32
        * 0x100_0000u32 + (id / 0x10_0000u32) % 16u32 * 0x10_0000u32 + (id / 0x1_0000u32) % 16u32
        * 0x1_0000u32 + (id / 0x1000u32) % 16u32 * 0x1000u32 + (id / 0x100u32) % 16u32 * 0x100u32
        + (id / 0x10u32) % 16u32 * 0x10u32 + id % 16u32 == id) by (bit_vector);
    assert(hex_digit(t[0]).unwrap() == (id / 0x1000_0000u32) % 16u32);
    assert(hex_digit(t[1]).unwrap() == (id / 0x100_0000u32) % 16u32);
    assert(hex_digit(t[2]).unwrap() == (id / 0x10_0000u32) % 16u32);
    assert(hex_digit(t[3]).unwrap() == (id / 0x1_0000u32) % 16u32);
    assert(hex_digit(t[4]).unwrap() == (id / 0x1000u32) % 16u32);
    assert(hex_digit(t[5]).unwrap() == (id / 0x100u32) % 16u32);
    assert(hex_digit(t[6]).unwrap() == (id / 0x10u32) % 16u32);
    assert(hex_digit(t[7]).unwrap() == (id / 1u32) % 16u32);
}

/// Reads what names a record: `-` for the last one, else its id.
pub fn parse_piece_ref(s: &str) -> (piece: Result<PieceRef, Error>)
    ensures
        match piece {
            Ok(PieceRef::Last) => s@ == "-"@,
            Ok(PieceRef::Id(v)) => s@ != "-"@ && is_id_text(s@) && v as int == id_value(s@),
            Err(e) => e == Error::InvalidId && s@ != "-"@ && !is_id_text(s@),
        },
{
    if same_text(s, "-") {
        Ok(PieceRef::Last)
    } else {
        match parse_piece_id(s) {
            Ok(v) => Ok(PieceRef::Id(v)),
            Err(e) => Err(e),
        }
    }
}

/// What the `push` operation does next.
#[derive(Debug, PartialEq, Eq)]
pub enum PushStep {
    /// Nothing: no file changed.
    Nothing,
    /// Show the changes and ask the user whether to commit them.
    Ask,
    /// Record these files, which are named relative to the files subtree.
    Commit(Vec<String>),
}

/// One step of the `push` operation, which records the files that changed in
/// the files subtree. `paths` are the changed paths of the working tree and
/// `answer` is what the user said to committing them, once asked. It fails
/// with `OutsideFiles` where a path lies outside the files subtree, and with
/// `Aborted` where the user declined.
pub fn push(paths: &Vec<String>, answer: Option<bool>) -> (step: Result<PushStep, Error>)
    ensures
        match step {
            Ok(PushStep::Nothing) => paths@.len() == 0,
            Ok(PushStep::Ask) => paths@.len() > 0 && answer.is_none() && forall|i: int|
                0 <= i < paths@.len() ==> below_files(#[trigger] paths@[i]@).is_some(),
            Ok(PushStep::Commit(files)) => paths@.len() > 0 && answer == Some(true) && files@.len()
                == paths@.len() && forall|i: int|
                0 <= i < paths@.len() ==> below_files(paths@[i]@) == Some((#[trigger] files@[i])@),
            Err(e) => if exists|i: int|
                0 <= i < paths@.len() && below_files(#[trigger] paths@[i]@).is_none() {
                e == Error::OutsideFiles
            } else {
                e == Error::Aborted && paths@.len() > 0 && answer == Some(false)
            },
        },
{
    let files = match Repo::changed_files(paths) {
        Ok(files) => files,
        Err(e) => {
            return Err(e);
        },
    };
    proof {
        assert forall|i: int| 0 <= i < paths@.len() implies below_files(
            #[trigger] paths@[i]@,
        ).is_some() by {
            assert(below_files(paths@[i]@) == Some(files@[i]@));
        }
    }
    if files.len() == 0 {
        return Ok(PushStep::Nothing);
    }
    match answer {
        None => Ok(PushStep::Ask),
        Some(true) => Ok(PushStep::Commit(files)),
        Some(false) => Err(Error::Aborted),
    }
}

/// How an operation ends that changed the ledger and then recorded it. What
/// was changed is recorded even where the operation failed part of the way, and
/// only then does the operation's own error reach the caller; where recording
/// failed, that is the error.
pub fn conclude<E>(operation: Result<(), E>, recorded: Result<(), E>) -> (result: Result<(), E>)
    ensures
        result == (if recorded.is_err() {
            recorded
        } else {
            operation
        }),
{
    match recorded {
        Err(e) => Err(e),
        Ok(_) => operation,
    }
}

} // verus!
