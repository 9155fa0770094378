//! Rules on file names: hidden names, extensions, and the names of folders.

use vstd::prelude::*;

verus! {

/// The path conventions of the host.
#[derive(Debug, Clone, Copy, PartialEq, Eq, Structural)]
pub enum Platform {
    /// Paths are separated by `/`.
    Unix,
    /// Paths are separated by `\`, and `/` separates as well.
    Windows,
}

impl Platform {
    /// The character that the host puts between a directory and what stands
    /// in it.
    pub open spec fn separator(self) -> char {
        match self {
            Platform::Unix => '/',
            Platform::Windows => '\\',
        }
    }

    /// The host reads `c` as a path separator.
    pub open spec fn separates(self, c: char) -> bool {
        c == '/' || (self is Windows && c == '\\')
    }

    /// The platform whose separator is `separator`: `Windows` for `\`, `Unix`
    /// for every other character.
    pub fn of_separator(separator: char) -> (platform: Platform)
        ensures
            platform == if separator == '\\' {
                Platform::Windows
            } else {
                Platform::Unix
            },
    {
        if separator == '\\' {
            Platform::Windows
        } else {
            Platform::Unix
        }
    }

    /// The separator of the platform.
    pub fn main_separator(self) -> (c: char)
        ensures
            c == self.separator(),
    {
        match self {
            Platform::Unix => '/',
            Platform::Windows => '\\',
        }
    }

    /// Tells whether the platform reads `c` as a path separator.
    pub fn is_separator(self, c: char) -> (r: bool)
        ensures
            r == self.separates(c),
    {
        c == '/' || (c == '\\' && match self {
            Platform::Windows => true,
            Platform::Unix => false,
        })
    }
}

/// A name is hidden when it starts with a dot.
pub open spec fn hidden(name: Seq<char>) -> bool {
    name.len() > 0 && name[0] == '.'
}

/// `i` is the place of the last `c` in `s`.
pub open spec fn last_at(s: Seq<char>, c: char, i: int) -> bool {
    &&& 0 <= i < s.len()
    &&& s[i] == c
    &&& forall|j: int| i < j < s.len() ==> s[j] != c
}

/// The extension of a file name: what follows its last dot, wherever that
/// dot stands. Only a name without a dot has no extension; a name that ends
/// in a dot has the empty one.
pub open spec fn extension_of(name: Seq<char>) -> Option<Seq<char>> {
    if exists|i: int| last_at(name, '.', i) {
        let i = choose|i: int| last_at(name, '.', i);
        Some(name.skip(i + 1))
    } else {
        None
    }
}

/// A name that can stand for a folder directly below another on `platform`:
/// not empty, free of path separators, and neither `.` nor `..`.
pub open spec fn is_dir_name(s: Seq<char>, platform: Platform) -> bool {
    &&& s.len() > 0
    &&& forall|i: int| 0 <= i < s.len() ==> !platform.separates(#[trigger] s[i])
    &&& s != seq!['.']
    &&& s != seq!['.', '.']
}

/// The last `c` of a sequence stands in one place only.
pub proof fn lemma_last_at_unique(s: Seq<char>, c: char, i: int, j: int)
    requires
        last_at(s, c, i),
        last_at(s, c, j),
    ensures
        i == j,
{
}

/// Tells whether `name` is a hidden name.
pub fn is_hidden(name: &str) -> (r: bool)
    ensures
        r == hidden(name@),
{
    let mut it = name.chars();
    match it.next() {
        Some(c) => c == '.',
        None => false,
    }
}

/// The extension of `name`, without the dot.
pub fn extension(name: &str) -> (r: Option<String>)
    ensures
        match r {
            Some(e) => extension_of(name@) == Some(e@),
            None => extension_of(name@) is None,
        },
{
    let mut ext = String::new();
    let mut dot = false;
    let ghost mut at: int = -1;
    for c in it: name.chars()
        invariant
            it.seq() == name@,
            dot <==> at >= 0,
            -1 <= at < it.index(),
            !dot ==> forall|j: int| 0 <= j < it.index() ==> name@[j] != '.',
            dot ==> last_at(name@.take(it.index() as int), '.', at),
            dot ==> ext@ == name@.subrange(at + 1, it.index() as int),
            !dot ==> ext@.len() == 0,
    {
        let ghost p = it.index() as int;
        if c == '.' {
            dot = true;
            ext = String::new();
            proof {
                at = p;
            }
        } else if dot {
            ext.push(c);
        }
        proof {
            let before = name@.take(p);
            let now = name@.take(p + 1);
            assert(now[p] == c);
            assert(forall|j: int| 0 <= j < p ==> now[j] == before[j]);
            if at >= 0 && at < p {
                assert(name@.subrange(at + 1, p + 1) == name@.subrange(at + 1, p).push(c));
            }
        }
    }
    proof {
        assert(name@.take(name@.len() as int) == name@);
        if dot {
            assert(name@.subrange(at + 1, name@.len() as int) == name@.skip(at + 1));
            let w = choose|i: int| last_at(name@, '.', i);
            lemma_last_at_unique(name@, '.', at, w);
        }
    }
    if dot {
        Some(ext)
    } else {
        None
    }
}

/// Tells whether `name` can stand for a folder directly below another on
/// `platform`.
pub fn dir_name(name: &str, platform: Platform) -> (r: bool)
    ensures
        r == is_dir_name(name@, platform),
{
    let mut seen: u8 = 0;
    let mut dots_only = true;
    let mut clean = true;
    for c in it: name.chars()
        invariant
            it.seq() == name@,
            seen == if it.index() < 3 { it.index() as int } else { 3 },
            dots_only == forall|j: int| 0 <= j < it.index() ==> name@[j] == '.',
            clean == forall|j: int| 0 <= j < it.index() ==> !platform.separates(#[trigger] name@[j]),
    {
        if seen < 3 {
            seen = seen + 1;
        }
        if c != '.' {
            dots_only = false;
        }
        if platform.is_separator(c) {
            clean = false;
        }
    }
    proof {
        if dots_only && seen == 1 {
            assert(name@ =~= seq!['.']);
        }
        if dots_only && seen == 2 {
            assert(name@ =~= seq!['.', '.']);
        }
        if name@ == seq!['.'] || name@ == seq!['.', '.'] {
            assert(forall|j: int| 0 <= j < name@.len() ==> name@[j] == '.');
        }
    }
    seen > 0 && clean && !(dots_only && seen < 3)
}

} // verus!
