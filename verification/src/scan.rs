//! The scan: which entries of the target directory a run takes.

use vstd::prelude::*;
use crate::error::SortError;
use crate::name::{hidden, is_hidden};

verus! {

/// What the caller found out about one entry of the target directory.
#[derive(Debug, PartialEq, Eq)]
pub struct DirEntryInfo {
    /// The name of the entry, without the directory.
    pub name: String,
    /// The entry is a directory, or a link to one.
    pub is_dir: bool,
    /// The entry is a symbolic link.
    pub is_symlink: bool,
}

/// What reading the target directory gave.
#[derive(Debug, PartialEq, Eq)]
pub enum Listing {
    /// The directory could not be read.
    Unreadable,
    /// The entries in the order in which they were read; `None` stands for
    /// one that could not be read.
    Entries(Vec<Option<DirEntryInfo>>),
}

/// A file that the scan took. It is good for one run: after a move its
/// name no longer leads to it.
#[derive(Debug, PartialEq, Eq)]
pub struct FileEntry {
    /// The name of the file, without the directory.
    pub name: String,
    /// The file is a symbolic link.
    pub symlink: bool,
}

/// Which entries a scan passes over. Directories are passed over always.
#[derive(Debug, Clone, Copy, PartialEq, Eq, Structural)]
pub struct Policy {
    /// Pass over entries with a hidden name.
    pub ignore_hidden: bool,
    /// Pass over symbolic links.
    pub ignore_symlink: bool,
}

/// An entry of a directory, as specifications see it.
pub struct Entry {
    pub name: Seq<char>,
    pub is_dir: bool,
    pub is_symlink: bool,
}

/// A scanned file, as specifications see it.
pub struct File {
    pub name: Seq<char>,
    pub symlink: bool,
}

impl View for DirEntryInfo {
    type V = Entry;

    open spec fn view(&self) -> Entry {
        Entry { name: self.name@, is_dir: self.is_dir, is_symlink: self.is_symlink }
    }
}

impl View for FileEntry {
    type V = File;

    open spec fn view(&self) -> File {
        File { name: self.name@, symlink: self.symlink }
    }
}

impl DeepView for FileEntry {
    type V = File;

    open spec fn deep_view(&self) -> File {
        self@
    }
}

/// The scan takes `entry`: it is no directory, and the policy does not
/// pass it over.
pub open spec fn taken(entry: Entry, policy: Policy) -> bool {
    &&& !entry.is_dir
    &&& !(policy.ignore_hidden && hidden(entry.name))
    &&& !(policy.ignore_symlink && entry.is_symlink)
}

/// The file that the scan makes of `entry`, if it takes it.
pub open spec fn scan_one(entry: Entry, policy: Policy) -> Option<File> {
    if taken(entry, policy) {
        Some(File { name: entry.name, symlink: entry.is_symlink })
    } else {
        None
    }
}

/// The files that the scan takes from `entries`, in their order.
pub open spec fn scanned(entries: Seq<Entry>, policy: Policy) -> Seq<File> {
    entries.filter_map(|entry: Entry| scan_one(entry, policy))
}

impl Listing {
    /// The directory and each of its entries could be read.
    pub open spec fn readable(&self) -> bool {
        match self {
            Listing::Entries(list) => forall|i: int| 0 <= i < list.len() ==> (#[trigger] list[i]) is Some,
            Listing::Unreadable => false,
        }
    }

    /// The entries that were read.
    pub open spec fn entries(&self) -> Seq<Entry> {
        match self {
            Listing::Entries(list) => Seq::new(list.len() as nat, |i: int| list[i].unwrap()@),
            Listing::Unreadable => Seq::empty(),
        }
    }
}

impl Policy {
    /// The policy that the two options ask for. An option that is not set
    /// counts as set to `true`.
    pub fn new(ignore_hidden: Option<bool>, ignore_symlink: Option<bool>) -> (policy: Policy)
        ensures
            policy.ignore_hidden == (ignore_hidden != Some(false)),
            policy.ignore_symlink == (ignore_symlink != Some(false)),
    {
        Policy {
            ignore_hidden: match ignore_hidden {
                Some(flag) => flag,
                None => true,
            },
            ignore_symlink: match ignore_symlink {
                Some(flag) => flag,
                None => true,
            },
        }
    }
}

/// Picks the files of a run from what reading the target directory gave. The
/// scan fails as a whole if the directory or any one entry could not be read.
pub fn read_folder(listing: &Listing, policy: Policy) -> (r: Result<Vec<FileEntry>, SortError>)
    ensures
        match r {
            Ok(files) => listing.readable() && files.deep_view() == scanned(listing.entries(), policy),
            Err(e) => e == SortError::DirectoryUnreadable && !listing.readable(),
        },
{
    let list = match listing {
        Listing::Entries(list) => list,
        Listing::Unreadable => {
            return Err(SortError::DirectoryUnreadable);
        },
    };
    let mut files: Vec<FileEntry> = Vec::new();
    let mut i: usize = 0;
    proof {
        assert(listing.entries().take(0) =~= Seq::<Entry>::empty());
    }
    while i < list.len()
        invariant
            i <= list.len(),
            *listing == Listing::Entries(*list),
            forall|j: int| 0 <= j < i ==> (#[trigger] list[j]) is Some,
            files.deep_view() == scanned(listing.entries().take(i as int), policy),
        decreases list.len() - i,
    {
        let entry = match &list[i] {
            Some(entry) => entry,
            None => {
                return Err(SortError::DirectoryUnreadable);
            },
        };
        proof {
            listing.entries().lemma_filter_map_take_succ(|entry: Entry| scan_one(entry, policy), i as int);
            assert(listing.entries()[i as int] == entry@);
        }
        let pass = entry.is_dir || (policy.ignore_hidden && is_hidden(entry.name.as_str())) || (
        policy.ignore_symlink && entry.is_symlink);
        if !pass {
            let ghost before = files.deep_view();
            let file = FileEntry { name: entry.name.clone(), symlink: entry.is_symlink };
            files.push(file);
            proof {
                assert(files.deep_view() =~= before.push(file@));
            }
        }
        i = i + 1;
    }
    proof {
        assert(listing.entries().take(list.len() as int) == listing.entries());
    }
    Ok(files)
}

} // verus!
