//! Packages that apt installs.

use crate::cli::AddArgs;
use crate::errors::Error;
use crate::pieces::PieceView;
use vstd::prelude::*;

verus! {

/// Installs a package with apt. Many of these run as one command.
#[derive(Debug, PartialEq, Eq)]
pub struct Apt {
    /// The package to install.
    pub package: String,
}

impl View for Apt {
    type V = PieceView;

    open spec fn view(&self) -> PieceView {
        PieceView::Apt { package: self.package@ }
    }
}

impl Clone for Apt {
    fn clone(&self) -> (copy: Self)
        ensures
            copy@ == self@,
    {
        Apt { package: self.package.clone() }
    }
}

/// The command line that installs the packages, or removes them.
pub open spec fn apt_command_line(undo: bool, packages: Seq<Seq<char>>) -> Seq<Seq<char>> {
    if undo {
        seq!["apt"@, "remove"@, "--autoremove"@] + packages
    } else {
        seq!["apt"@, "install"@] + packages
    }
}

/// The package names of a group, in order.
pub open spec fn package_names(pieces: Seq<Apt>) -> Seq<Seq<char>> {
    Seq::new(pieces.len(), |i: int| pieces[i].package@)
}

impl Apt {
    /// The command line that installs all of `pieces` at once.
    pub fn execute_bulk(pieces: &Vec<Apt>) -> (line: Vec<String>)
        ensures
            line.deep_view() == apt_command_line(false, package_names(pieces@)),
    {
        Self::apt_command(false, pieces)
    }

    /// The command line that removes all of `pieces` at once.
    pub fn undo_bulk(pieces: &Vec<Apt>) -> (line: Vec<String>)
        ensures
            line.deep_view() == apt_command_line(true, package_names(pieces@)),
    {
        Self::apt_command(true, pieces)
    }

    fn apt_command(undo: bool, pieces: &Vec<Apt>) -> (line: Vec<String>)
        ensures
            line.deep_view() == apt_command_line(undo, package_names(pieces@)),
    {
        let mut line: Vec<String> = Vec::new();
        line.push("apt".to_owned());
        if undo {
            line.push("remove".to_owned());
            line.push("--autoremove".to_owned());
        } else {
            line.push("install".to_owned());
        }
        let ghost head = line@;
        assert(line.deep_view() =~= apt_command_line(undo, Seq::empty()));
        let mut i: usize = 0;
        while i < pieces.len()
            invariant
                i <= pieces.len(),
                line@.len() == head.len() + i,
                head.len() == apt_command_line(undo, Seq::empty()).len(),
                forall|j: int|
                    0 <= j < head.len() ==> (#[trigger] line@[j])@ == apt_command_line(
                        undo,
                        Seq::empty(),
                    )[j],
                forall|j: int| 0 <= j < i ==> (#[trigger] line@[head.len() + j])@ == pieces@[j].package@,
            decreases pieces.len() - i,
        {
            line.push(pieces[i].package.clone());
            i += 1;
        }
        proof {
            let want = apt_command_line(undo, package_names(pieces@));
            assert(line.deep_view().len() == want.len());
            assert forall|j: int| 0 <= j < want.len() implies line.deep_view()[j] == want[j] by {
                if j >= head.len() {
                    assert(line@[head.len() + (j - head.len())]@ == pieces@[j - head.len()].package@);
                }
            }
            assert(line.deep_view() =~= want);
        }
        line
    }

    /// The piece for the one package that `args` names.
    pub fn from_cli(args: &AddArgs) -> (piece: Result<Self, Error>)
        ensures
            match piece {
                Ok(p) => args.value@.len() == 1 && p.package@ == args.value@[0]@,
                Err(e) => e == Error::ExpectedSingleValue && args.value@.len() != 1,
            },
    {
        if args.value.len() != 1 {
            return Err(Error::ExpectedSingleValue);
        }
        Ok(Self { package: args.value[0].clone() })
    }

    /// The piece for a package that was read off a command line.
    pub fn from_cli_autodetected(_args: &AddArgs, package: String) -> (piece: Self)
        ensures
            piece.package@ == package@,
    {
        Self { package }
    }

    /// How a listing shows the piece.
    pub fn to_text(&self) -> (text: String)
        ensures
            text@ == self@.text(),
    {
        let mut text = "apt install ".to_owned();
        text.append(self.package.as_str());
        text
    }
}

} // verus!
