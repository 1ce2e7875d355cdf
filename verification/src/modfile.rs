//! The index of the modules of a directory: a file that names, line by line,
//! the modules that stand beside it.

use vstd::prelude::*;
use vstd::string::*;
use crate::text::chars_of;

verus! {

/// The first line of an index that is kept by this library.
pub open spec fn magic_header() -> Seq<char> {
    "// Automatically generated mod.rs"@
}

/// Whether `pattern` stands in `line` at position `at`.
pub open spec fn stands_at(line: Seq<char>, pattern: Seq<char>, at: int) -> bool {
    0 <= at && at + pattern.len() <= line.len() && line.subrange(at, at + pattern.len())
        == pattern
}

/// The first position from `from` on at which `pattern` stands in `line`.
pub open spec fn first_at(line: Seq<char>, pattern: Seq<char>, from: int) -> Option<int>
    decreases line.len() - from,
{
    if from < 0 || from + pattern.len() > line.len() || from >= line.len() {
        None
    } else if stands_at(line, pattern, from) {
        Some(from)
    } else {
        first_at(line, pattern, from + 1)
    }
}

/// Whether `pattern` stands somewhere in `line`.
pub open spec fn holds_text(line: Seq<char>, pattern: Seq<char>) -> bool {
    first_at(line, pattern, 0) is Some
}

/// Whether a line of an index names the module `name`: after the first
/// `pub mod ` of the line, up to the last character of the line, stands the
/// name.
pub open spec fn names_module(line: Seq<char>, name: Seq<char>) -> bool {
    match first_at(line, "pub mod "@, 0) {
        Some(at) => at + 8 <= line.len() - 1 && line.subrange(at + 8, line.len() - 1) == name,
        None => false,
    }
}

/// Whether one of the lines names the module.
pub open spec fn some_line_names(lines: Seq<Seq<char>>, name: Seq<char>) -> bool {
    exists|i: int| 0 <= i < lines.len() && names_module(#[trigger] lines[i], name)
}

/// Whether an index with these lines is to be left as it is: it is not kept
/// by this library, or it names the module already.
pub open spec fn is_settled(lines: Seq<Seq<char>>, name: Seq<char>) -> bool {
    (lines.len() > 0 && !holds_text(lines[0], magic_header())) || some_line_names(lines, name)
}

/// What is to be written to the index of a directory so that it names the
/// module `name`: nothing if the index is settled, the line of the module
/// if the index exists, and the header with the line if it does not.
pub open spec fn index_update(lines: Option<Seq<Seq<char>>>, name: Seq<char>) -> Option<Seq<char>> {
    match lines {
        Some(old) => if is_settled(old, name) {
            None
        } else {
            Some("pub mod "@ + name + ";\n"@)
        },
        None => Some(magic_header() + "\n"@ + "pub mod "@ + name + ";\n"@),
    }
}

/// Whether `pattern` stands in `line` at position `at`.
pub fn matches_at(line: &Vec<char>, pattern: &Vec<char>, at: usize) -> (r: bool)
    requires
        at + pattern@.len() <= line@.len(),
    ensures
        r == stands_at(line@, pattern@, at as int),
{
    let n = pattern.len();
    let len = line.len();
    let mut i: usize = 0;
    while i < n
        invariant
            i <= n,
            n == pattern@.len(),
            len == line@.len(),
            at + n <= line@.len(),
            forall|j: int| 0 <= j < i ==> line@[at + j] == pattern@[j],
        decreases n - i,
    {
        if line[at + i] != pattern[i] {
            assert(line@.subrange(at as int, at + n)[i as int] != pattern@[i as int]);
            return false;
        }
        i += 1;
    }
    assert(line@.subrange(at as int, at + n) =~= pattern@);
    true
}

/// The first position at which `pattern` stands in `line`.
pub fn find_text(line: &Vec<char>, pattern: &Vec<char>) -> (r: Option<usize>)
    ensures
        r is Some <==> first_at(line@, pattern@, 0) is Some,
        r is Some ==> r->0 as int == first_at(line@, pattern@, 0)->0,
        r is Some ==> r->0 + pattern@.len() <= line@.len(),
{
    let len = line.len();
    if pattern.len() > len {
        return None;
    }
    let last = len - pattern.len();
    let mut at: usize = 0;
    while at <= last && at < len
        invariant
            at <= len,
            len == line@.len(),
            last == line@.len() - pattern@.len(),
            first_at(line@, pattern@, at as int) == first_at(line@, pattern@, 0),
        decreases len - at,
    {
        if matches_at(line, pattern, at) {
            return Some(at);
        }
        at += 1;
    }
    None
}

/// Whether a line of an index names the module `name`.
pub fn line_names_module(line: &str, name: &str) -> (r: bool)
    ensures
        r == names_module(line@, name@),
{
    let chars = chars_of(line);
    let wanted = chars_of(name);
    let pattern = chars_of("pub mod ");
    proof {
        reveal_strlit("pub mod ");
        assert("pub mod "@.len() == 8);
    }
    let len = chars.len();
    match find_text(&chars, &pattern) {
        Some(at) => {
            let from = at + 8;
            if from >= len {
                return false;
            }
            let to = len - 1;
            if to - from != wanted.len() {
                assert(line@.subrange(from as int, to as int).len() != name@.len());
                return false;
            }
            let same = matches_at(&chars, &wanted, from);
            same
        },
        None => false,
    }
}

/// Whether `pattern` stands somewhere in `line`.
pub fn line_holds(line: &str, pattern: &str) -> (r: bool)
    ensures
        r == holds_text(line@, pattern@),
{
    let chars = chars_of(line);
    let wanted = chars_of(pattern);
    find_text(&chars, &wanted).is_some()
}

/// What is to be written to the index of a directory so that it names the
/// module `name`, given the lines of the index if it exists.
pub fn update_mod_file(lines: Option<&Vec<String>>, name: &str) -> (r: Option<String>)
    ensures
        r is Some <==> index_update(
            match lines {
                Some(l) => Some(crate::symbols::strings_view(l@)),
                None => None,
            },
            name@,
        ) is Some,
        r is Some ==> r->0@ == index_update(
            match lines {
                Some(l) => Some(crate::symbols::strings_view(l@)),
                None => None,
            },
            name@,
        )->0,
{
    match lines {
        Some(old) => {
            let ghost all = crate::symbols::strings_view(old@);
            if old.len() > 0 {
                assert(all[0] == old@[0]@);
                if !line_holds(old[0].as_str(), "// Automatically generated mod.rs") {
                    return None;
                }
            }
            let n = old.len();
            let mut i: usize = 0;
            while i < n
                invariant
                    i <= n,
                    n == old@.len(),
                    lines == Some(old),
                    all == crate::symbols::strings_view(old@),
                    forall|j: int| 0 <= j < i ==> !names_module(#[trigger] all[j], name@),
                decreases n - i,
            {
                assert(all[i as int] == old@[i as int]@);
                if line_names_module(old[i].as_str(), name) {
                    assert(names_module(all[i as int], name@));
                    return None;
                }
                i += 1;
            }
            let mut out = String::from_str("pub mod ");
            out.append(name);
            out.append(";\n");
            Some(out)
        },
        None => {
            let mut out = String::from_str("// Automatically generated mod.rs");
            out.append("\n");
            out.append("pub mod ");
            out.append(name);
            out.append(";\n");
            Some(out)
        },
    }
}

} // verus!
