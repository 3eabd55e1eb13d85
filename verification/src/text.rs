//! Texts: joining, copying, and hexadecimal digits.

use vstd::prelude::*;

verus! {

/// `String::push` appends the character to the end of the string.
pub assume_specification[ String::push ](s: &mut String, c: char)
    ensures
        final(s)@ == old(s)@.push(c),
;

/// Whether two texts hold the same characters.
pub fn same_text(a: &str, b: &str) -> (same: bool)
    ensures
        same == (a@ == b@),
{
    a.to_owned() == b.to_owned()
}

/// A relative path appended to a base directory: one separator stands between
/// them unless the base is empty or ends in one, and an absolute path takes
/// the place of the base.
pub open spec fn joined_path(base: Seq<char>, path: Seq<char>) -> Seq<char> {
    if path.len() > 0 && path[0] == '/' {
        path
    } else if base.len() == 0 || base.last() == '/' {
        base + path
    } else {
        base + seq!['/'] + path
    }
}

/// Appends a path to a base directory.
pub fn join_path(base: &str, path: &str) -> (whole: String)
    ensures
        whole@ == joined_path(base@, path@),
{
    let base_len = base.unicode_len();
    if !path.is_empty() && path.get_char(0) == '/' {
        return path.to_owned();
    }
    let mut whole = base.to_owned();
    if base_len > 0 && base.get_char(base_len - 1) != '/' {
        whole.push('/');
    }
    whole.append(path);
    whole
}

/// The words, each but the first with `sep` before it.
pub open spec fn joined(words: Seq<Seq<char>>, sep: Seq<char>) -> Seq<char>
    decreases words.len(),
{
    if words.len() == 0 {
        Seq::empty()
    } else if words.len() == 1 {
        words[0]
    } else {
        joined(words.drop_last(), sep) + sep + words.last()
    }
}

/// Joins the words with `sep` between them.
pub fn join(words: &Vec<String>, sep: &str) -> (line: String)
    ensures
        line@ == joined(words.deep_view(), sep@),
{
    let mut line = String::new();
    let mut i: usize = 0;
    while i < words.len()
        invariant
            i <= words.len(),
            line@ == joined(words.deep_view().take(i as int), sep@),
        decreases words.len() - i,
    {
        proof {
            let next = words.deep_view().take(i + 1);
            assert(next.drop_last() =~= words.deep_view().take(i as int));
            assert(next.last() == words@[i as int]@);
            if i > 0 {
                assert(joined(next, sep@) == joined(next.drop_last(), sep@) + sep@ + next.last());
            } else {
                assert(joined(next, sep@) == next[0]);
                assert(Seq::<char>::empty() + words@[i as int]@ =~= words@[i as int]@);
            }
        }
        if i > 0 {
            line.append(sep);
        }
        line.append(words[i].as_str());
        i += 1;
    }
    proof {
        assert(words.deep_view().take(words.len() as int) =~= words.deep_view());
    }
    line
}

/// A copy of the words.
pub fn copy_words(words: &Vec<String>) -> (copy: Vec<String>)
    ensures
        copy.deep_view() == words.deep_view(),
{
    let mut copy: Vec<String> = Vec::new();
    let mut i: usize = 0;
    while i < words.len()
        invariant
            i <= words.len(),
            copy@.len() == i,
            forall|j: int| 0 <= j < i ==> copy@[j]@ == words@[j]@,
        decreases words.len() - i,
    {
        copy.push(words[i].clone());
        i += 1;
    }
    proof {
        assert(copy.deep_view() =~= words.deep_view());
    }
    copy
}

/// A copy of a text that may be absent.
pub fn copy_text(text: &Option<String>) -> (copy: Option<String>)
    ensures
        text_view(copy) == text_view(*text),
{
    match text {
        Some(t) => Some(t.clone()),
        None => None,
    }
}

/// The characters of a text that may be absent.
pub open spec fn text_view(text: Option<String>) -> Option<Seq<char>> {
    match text {
        Some(t) => Some(t@),
        None => None,
    }
}

/// The value of a hexadecimal digit, of either case.
pub open spec fn hex_digit(c: char) -> Option<int> {
    if '0' <= c <= '9' {
        Some(c as int - '0' as int)
    } else if 'a' <= c <= 'f' {
        Some(c as int - 'a' as int + 10)
    } else if 'A' <= c <= 'F' {
        Some(c as int - 'A' as int + 10)
    } else {
        None
    }
}

/// The lower-case hexadecimal digit of a value below sixteen.
pub open spec fn hex_char(value: int) -> char {
    if value < 10 {
        (value + '0' as int) as char
    } else {
        (value - 10 + 'a' as int) as char
    }
}

/// Reads one hexadecimal digit.
pub fn read_hex_digit(c: char) -> (value: Option<u32>)
    ensures
        match value {
            Some(v) => hex_digit(c) == Some(v as int) && v < 16,
            None => hex_digit(c).is_none(),
        },
{
    let code: u32 = c as u32;
    if 0x30 <= code && code <= 0x39 {
        Some(code - 0x30)
    } else if 0x61 <= code && code <= 0x66 {
        Some(code - 0x61 + 10)
    } else if 0x41 <= code && code <= 0x46 {
        Some(code - 0x41 + 10)
    } else {
        None
    }
}

/// Writes one hexadecimal digit, in lower case.
pub fn write_hex_digit(value: u32) -> (c: char)
    requires
        value < 16,
    ensures
        c == hex_char(value as int),
        hex_digit(c) == Some(value as int),
{
    let code: u8 = if value < 10 {
        (value + 0x30) as u8
    } else {
        (value - 10 + 0x61) as u8
    };
    code as char
}

} // verus!
