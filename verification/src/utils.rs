//! Lists of machines as sets, and answers to yes-or-no questions.

use crate::machine::Machine;
use vstd::prelude::*;

verus! {

/// Whether `machine` occurs in `machines`.
pub fn contains(machines: &[Machine], machine: &Machine) -> (found: bool)
    ensures
        found == machines@.contains(*machine),
{
    let mut i: usize = 0;
    while i < machines.len()
        invariant
            i <= machines.len(),
            forall|j: int| 0 <= j < i ==> machines@[j] != *machine,
        decreases machines.len() - i,
    {
        if machines[i] == *machine {
            return true;
        }
        i += 1;
    }
    false
}

/// A copy of the list.
pub fn copy_machines(machines: &Vec<Machine>) -> (copy: Vec<Machine>)
    ensures
        copy@ == machines@,
{
    let mut copy: Vec<Machine> = Vec::new();
    let mut i: usize = 0;
    while i < machines.len()
        invariant
            i <= machines.len(),
            copy@ == machines@.take(i as int),
        decreases machines.len() - i,
    {
        copy.push(machines[i]);
        proof {
            assert(copy@ =~= machines@.take(i + 1));
        }
        i += 1;
    }
    proof {
        assert(machines@.take(machines.len() as int) =~= machines@);
    }
    copy
}

/// Whether every machine of `vec1` occurs in `vec2`.
pub fn subset(vec1: &[Machine], vec2: &[Machine]) -> (all: bool)
    ensures
        all == vec1@.to_set().subset_of(vec2@.to_set()),
{
    let mut i: usize = 0;
    while i < vec1.len()
        invariant
            i <= vec1.len(),
            forall|j: int| 0 <= j < i ==> vec2@.contains(#[trigger] vec1@[j]),
        decreases vec1.len() - i,
    {
        if !contains(vec2, &vec1[i]) {
            assert(vec1@.to_set().contains(vec1@[i as int]));
            return false;
        }
        i += 1;
    }
    assert forall|m: Machine| vec1@.to_set().contains(m) implies vec2@.to_set().contains(m) by {
        let j = choose|j: int| 0 <= j < vec1@.len() && vec1@[j] == m;
        assert(vec2@.contains(vec1@[j]));
    }
    true
}

/// Whether the two lists name the same machines, whatever their order and
/// however often each machine is listed.
pub fn set_eq(vec1: &[Machine], vec2: &[Machine]) -> (equal: bool)
    ensures
        equal == (vec1@.to_set() == vec2@.to_set()),
{
    let forth = subset(vec1, vec2);
    let back = subset(vec2, vec1);
    proof {
        if forth && back {
            assert(vec1@.to_set() =~= vec2@.to_set());
        }
    }
    forth && back
}

/// The lower-case form of an upper-case Latin letter; any other character
/// as it is.
pub open spec fn ascii_lower(c: char) -> char {
    if 'A' <= c <= 'Z' {
        ((c as int) + 32) as char
    } else {
        c
    }
}

/// A text with its upper-case Latin letters made lower-case.
pub open spec fn lowered(text: Seq<char>) -> Seq<char> {
    Seq::new(text.len(), |i: int| ascii_lower(text[i]))
}

/// What a line that the user typed answers to a yes-or-no question: yes for
/// `y` or `yes`, no for `n` or `no`, in any case, each ended by a line feed;
/// `None` for anything else.
pub open spec fn answer_of(line: Seq<char>) -> Option<bool> {
    let answer = lowered(line);
    if answer == "y\n"@ || answer == "yes\n"@ {
        Some(true)
    } else if answer == "n\n"@ || answer == "no\n"@ {
        Some(false)
    } else {
        None
    }
}

/// Makes an upper-case Latin letter lower-case.
pub fn to_ascii_lower(c: char) -> (lower: char)
    ensures
        lower == ascii_lower(c),
{
    if 'A' <= c && c <= 'Z' {
        ((c as u8) + 32) as char
    } else {
        c
    }
}

/// Reads the answer to a yes-or-no question off the line that the user typed.
/// On `None` the question is to be asked again.
pub fn confirm(line: &str) -> (answer: Option<bool>)
    ensures
        answer == answer_of(line@),
{
    proof {
        reveal_strlit("y\n");
        reveal_strlit("yes\n");
        reveal_strlit("n\n");
        reveal_strlit("no\n");
    }
    let n = line.unicode_len();
    if n > 4 {
        assert(lowered(line@).len() > 4);
        assert("y\n"@.len() == 2 && "yes\n"@.len() == 4 && "n\n"@.len() == 2 && "no\n"@.len() == 3);
        return None;
    }
    let mut answer = String::new();
    let mut i: usize = 0;
    while i < n
        invariant
            i <= n,
            n == line@.len(),
            answer@ == lowered(line@).take(i as int),
        decreases n - i,
    {
        answer.push(to_ascii_lower(line.get_char(i)));
        proof {
            assert(answer@ =~= lowered(line@).take(i + 1));
        }
        i += 1;
    }
    proof {
        assert(lowered(line@).take(n as int) =~= lowered(line@));
    }
    if crate::text::same_text(answer.as_str(), "y\n") || crate::text::same_text(
        answer.as_str(),
        "yes\n",
    ) {
        Some(true)
    } else if crate::text::same_text(answer.as_str(), "n\n") || crate::text::same_text(
        answer.as_str(),
        "no\n",
    ) {
        Some(false)
    } else {
        None
    }
}

} // verus!
