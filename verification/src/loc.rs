//! The migration metric's rules: the directories and files a line count
//! skips, the bucket (Rust, C++ family, other) a file counts in by its
//! extension, the line count of a text, and the running totals.

use vstd::prelude::*;
use crate::text::{chars_of, lemma_rfind_char, rfind_char, rfind_char_exec, slice_copy, str_eq, string_of, to_lower};
use crate::tl::{lines_exec, lines_of};

verus! {

/// Where a file's lines are counted.
#[derive(Debug, Clone, Copy, PartialEq, Eq, Structural)]
pub enum Bucket {
    Rust,
    Cpp,
    Other,
}

/// Directory names whose subtrees are not counted.
pub open spec fn spec_is_skipped_dir(name: Seq<char>) -> bool {
    name == ".git"@ || name == "target"@ || name == "out"@ || name == "build"@ || name == "ThirdParty"@
        || name == "Libraries"@ || name == "node_modules"@ || name == ".venv"@ || name == "__pycache__"@
}

pub fn is_skipped_dir(name: &str) -> (r: bool)
    ensures
        r == spec_is_skipped_dir(name@),
{
    str_eq(name, ".git") || str_eq(name, "target") || str_eq(name, "out") || str_eq(name, "build")
        || str_eq(name, "ThirdParty") || str_eq(name, "Libraries") || str_eq(name, "node_modules")
        || str_eq(name, ".venv") || str_eq(name, "__pycache__")
}

/// File names that are not counted.
pub open spec fn spec_is_skipped_file(name: Seq<char>) -> bool {
    name == "Cargo.lock"@
}

pub fn is_skipped_file(name: &str) -> (r: bool)
    ensures
        r == spec_is_skipped_file(name@),
{
    str_eq(name, "Cargo.lock")
}

/// Extension of a file name: the text after the last `.`, unless there is
/// no `.`, the only `.` starts the name, or the name is `..`.
pub open spec fn spec_extension(name: Seq<char>) -> Option<Seq<char>> {
    if name == ".."@ {
        None
    } else {
        match rfind_char(name, '.') {
            Some(i) => if i == 0 { None } else { Some(name.skip(i + 1)) },
            None => None,
        }
    }
}

pub fn extension(name: &str) -> (r: Option<String>)
    ensures
        r matches Some(e) ==> spec_extension(name@) == Some(e@),
        r is None ==> spec_extension(name@) is None,
{
    if str_eq(name, "..") {
        return None;
    }
    let v = chars_of(name);
    match rfind_char_exec(&v, '.') {
        Some(i) => {
            if i == 0 {
                None
            } else {
                proof { lemma_rfind_char(v@, '.'); }
                let tail = slice_copy(&v, i + 1, v.len());
                assert(tail@ =~= name@.skip(i + 1));
                Some(string_of(&tail))
            }
        },
        None => None,
    }
}

/// ASCII lowercase of every character.
pub open spec fn ascii_lowercase(s: Seq<char>) -> Seq<char> {
    s.map_values(|c: char| to_lower(c))
}

fn ascii_lowercase_exec(s: &str) -> (r: String)
    ensures
        r@ == ascii_lowercase(s@),
{
    let v = chars_of(s);
    let mut out: Vec<char> = Vec::new();
    let mut i: usize = 0;
    while i < v.len()
        invariant
            i <= v@.len(),
            out@ == v@.take(i as int).map_values(|c: char| to_lower(c)),
        decreases v.len() - i,
    {
        let c = crate::text::lower_char(v[i]);
        out.push(c);
        assert(v@.take(i + 1).map_values(|c: char| to_lower(c)) =~= v@.take(i as int).map_values(|c: char| to_lower(c)).push(c));
        i += 1;
    }
    assert(v@.take(v@.len() as int) =~= v@);
    string_of(&out)
}

/// The bucket of a file by its lowercased extension.
pub open spec fn spec_bucket(name: Seq<char>) -> Bucket {
    let ext = match spec_extension(name) {
        Some(e) => ascii_lowercase(e),
        None => Seq::empty(),
    };
    if ext == "rs"@ {
        Bucket::Rust
    } else if ext == "cpp"@ || ext == "h"@ || ext == "hpp"@ || ext == "c"@ || ext == "cc"@ || ext == "cxx"@
        || ext == "mm"@ || ext == "m"@ {
        Bucket::Cpp
    } else {
        Bucket::Other
    }
}

pub fn bucket(name: &str) -> (r: Bucket)
    ensures
        r == spec_bucket(name@),
{
    let ext = match extension(name) {
        Some(e) => ascii_lowercase_exec(e.as_str()),
        None => String::new(),
    };
    let e = ext.as_str();
    if str_eq(e, "rs") {
        Bucket::Rust
    } else if str_eq(e, "cpp") || str_eq(e, "h") || str_eq(e, "hpp") || str_eq(e, "c") || str_eq(e, "cc")
        || str_eq(e, "cxx") || str_eq(e, "mm") || str_eq(e, "m") {
        Bucket::Cpp
    } else {
        Bucket::Other
    }
}

/// Number of lines of a text (`str::lines`).
pub fn line_count(text: &str) -> (r: u64)
    ensures
        r == lines_of(text@).len(),
{
    let v = chars_of(text);
    let ls = lines_exec(&v);
    assert(ls@.map_values(|x: Vec<char>| x@).len() == ls@.len());
    ls.len() as u64
}

/// Running file and line totals per bucket.
#[derive(Debug, Clone, Copy, PartialEq, Eq, Structural)]
pub struct Counts {
    pub rust_files: u64,
    pub rust_lines: u64,
    pub cpp_files: u64,
    pub cpp_lines: u64,
    pub other_files: u64,
    pub other_lines: u64,
}

/// The totals do not overflow when one more file of `lines` lines is
/// counted in bucket `b`.
pub open spec fn can_add(c: Counts, b: Bucket, lines: u64) -> bool {
    match b {
        Bucket::Rust => c.rust_files + 1 <= u64::MAX && c.rust_lines + lines <= u64::MAX,
        Bucket::Cpp => c.cpp_files + 1 <= u64::MAX && c.cpp_lines + lines <= u64::MAX,
        Bucket::Other => c.other_files + 1 <= u64::MAX && c.other_lines + lines <= u64::MAX,
    }
}

/// Whether counting one more file of `lines` lines in bucket `b` fits.
pub fn can_add_exec(c: &Counts, b: Bucket, lines: u64) -> (r: bool)
    ensures
        r == can_add(*c, b, lines),
{
    match b {
        Bucket::Rust => c.rust_files < u64::MAX && lines <= u64::MAX - c.rust_lines,
        Bucket::Cpp => c.cpp_files < u64::MAX && lines <= u64::MAX - c.cpp_lines,
        Bucket::Other => c.other_files < u64::MAX && lines <= u64::MAX - c.other_lines,
    }
}

impl Counts {
    /// All totals zero.
    pub fn new() -> (r: Counts)
        ensures
            r == (Counts { rust_files: 0, rust_lines: 0, cpp_files: 0, cpp_lines: 0, other_files: 0, other_lines: 0 }),
    {
        Counts { rust_files: 0, rust_lines: 0, cpp_files: 0, cpp_lines: 0, other_files: 0, other_lines: 0 }
    }

    /// Counts one file of `lines` lines in bucket `b`.
    pub fn add(&mut self, b: Bucket, lines: u64)
        requires
            can_add(*old(self), b, lines),
        ensures
            *final(self) == match b {
                Bucket::Rust => Counts { rust_files: (old(self).rust_files + 1) as u64, rust_lines: (old(self).rust_lines + lines) as u64, ..*old(self) },
                Bucket::Cpp => Counts { cpp_files: (old(self).cpp_files + 1) as u64, cpp_lines: (old(self).cpp_lines + lines) as u64, ..*old(self) },
                Bucket::Other => Counts { other_files: (old(self).other_files + 1) as u64, other_lines: (old(self).other_lines + lines) as u64, ..*old(self) },
            },
    {
        match b {
            Bucket::Rust => {
                self.rust_files += 1;
                self.rust_lines += lines;
            },
            Bucket::Cpp => {
                self.cpp_files += 1;
                self.cpp_lines += lines;
            },
            Bucket::Other => {
                self.other_files += 1;
                self.other_lines += lines;
            },
        }
    }

    /// Lines of code counted: Rust plus C++ family.
    pub fn total_code(&self) -> (r: u64)
        requires
            self.rust_lines + self.cpp_lines <= u64::MAX,
        ensures
            r == self.rust_lines + self.cpp_lines,
    {
        self.rust_lines + self.cpp_lines
    }
}

} // verus!
