//! The identity of a machine, and what the ledger tells about it.

use crate::errors::Error;
use rand::RngCore;
use vstd::prelude::*;

verus! {

/// One installation's identity: a 128-bit value drawn at random when the
/// installation is made, and never changed afterwards.
#[derive(Debug, Clone, Copy, PartialEq, Eq, Structural, Hash)]
pub struct Machine(pub u128);

/// What the ledger tells about a machine besides its id.
#[derive(Debug, PartialEq, Eq)]
pub struct MachineData {
    pub hostname: String,
}

impl View for MachineData {
    type V = Seq<char>;

    open spec fn view(&self) -> Seq<char> {
        self.hostname@
    }
}

impl Clone for MachineData {
    fn clone(&self) -> (copy: Self)
        ensures
            copy@ == self@,
    {
        MachineData { hostname: self.hostname.clone() }
    }
}

/// The value that `uuid::Uuid::parse_str` reads from a text, `None` where it
/// rejects the text.
pub uninterp spec fn uuid_of_text(text: Seq<char>) -> Option<u128>;

/// The text that `uuid::Uuid` displays for a value.
pub uninterp spec fn text_of_uuid(id: u128) -> Seq<char>;

/// The bits of a 128-bit id that tell its version and its variant.
pub const UUID_KIND_MASK: u128 = 0x0000_0000_0000_f000_c000_0000_0000_0000;

/// The version and variant bits of a random id: version 4, variant 1.
pub const UUID_KIND_RANDOM: u128 = 0x0000_0000_0000_4000_8000_0000_0000_0000;

/// `uuid::Uuid::new_v4`, as a 128-bit number. The bits are random but for the
/// version and the variant, which it sets to those of a random id. It panics
/// if the operating system cannot supply random bytes.
#[verifier::external_body]
fn random_uuid() -> (id: u128)
    ensures
        id & UUID_KIND_MASK == UUID_KIND_RANDOM,
{
    uuid::Uuid::new_v4().as_u128()
}

/// `uuid::Uuid::parse_str`, with the id as a 128-bit number and `None` where
/// it returns an error.
#[verifier::external_body]
fn parse_uuid(text: &str) -> (parsed: Option<u128>)
    ensures
        parsed == uuid_of_text(text@),
{
    uuid::Uuid::parse_str(text).ok().map(|id| id.as_u128())
}

/// The `Display` of `uuid::Uuid`: the hyphenated lower-case form, which
/// `uuid::Uuid::parse_str` reads back as the same id.
#[verifier::external_body]
fn display_uuid(id: u128) -> (text: String)
    ensures
        text@ == text_of_uuid(id),
        uuid_of_text(text@) == Some(id),
{
    uuid::Uuid::from_u128(id).to_string()
}

/// `rand::rng().next_u32()`: a random number, of which nothing is known.
#[verifier::external_body]
pub(crate) fn random_u32() -> u32 {
    rand::rng().next_u32()
}

/// `hostname::get`: the name the operating system gives this host, with
/// whatever is not Unicode in it replaced, and `None` where it returns an
/// error.
#[verifier::external_body]
fn host_name() -> Option<String> {
    hostname::get().ok().map(|name| name.to_string_lossy().into_owned())
}

impl Machine {
    /// A fresh random identity.
    pub fn new() -> (machine: Machine)
        ensures
            machine.0 & UUID_KIND_MASK == UUID_KIND_RANDOM,
    {
        Machine(random_uuid())
    }

    /// The text in which an installation keeps its identity.
    pub fn to_text(&self) -> (text: String)
        ensures
            text@ == text_of_uuid(self.0),
            uuid_of_text(text@) == Some(self.0),
    {
        display_uuid(self.0)
    }

    /// Reads an identity back from its text.
    pub fn parse(text: &str) -> (machine: Result<Machine, Error>)
        ensures
            match machine {
                Ok(m) => uuid_of_text(text@) == Some(m.0),
                Err(e) => e == Error::InvalidMachineId && uuid_of_text(text@).is_none(),
            },
    {
        match parse_uuid(text) {
            Some(id) => Ok(Machine(id)),
            None => Err(Error::InvalidMachineId),
        }
    }
}

impl MachineData {
    /// The data of a machine with this host name.
    pub fn new(hostname: String) -> (data: MachineData)
        ensures
            data@ == hostname@,
    {
        MachineData { hostname }
    }

    /// What describes the machine that this process runs on; it fails with
    /// `UnknownHostname` where the host does not tell its name.
    pub fn new_this() -> (data: Result<MachineData, Error>)
        ensures
            data matches Err(e) ==> e == Error::UnknownHostname,
    {
        Self::from_host_name(host_name())
    }

    /// The data for a machine whose name lookup gave `name`.
    pub fn from_host_name(name: Option<String>) -> (data: Result<MachineData, Error>)
        ensures
            match data {
                Ok(d) => name matches Some(n) && d@ == n@,
                Err(e) => e == Error::UnknownHostname && name.is_none(),
            },
    {
        match name {
            Some(n) => Ok(MachineData::new(n)),
            None => Err(Error::UnknownHostname),
        }
    }
}

} // verus!
