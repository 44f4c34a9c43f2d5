//! The traversal worklist: which directories are still to be listed, and
//! what to do with the entries one listing produced.
//!
//! The surrounding process owns the directory-listing primitive; it pops a
//! pending directory, lists it, classifies each child entry, and hands the
//! classified entries back. This module decides, verified: every child
//! directory is queued for its own listing, every regular file is handed on
//! for processing, and every other entry is passed over. A directory whose
//! listing fails is simply never handed back, which leaves every sibling
//! already queued untouched.

use vstd::prelude::*;

verus! {

/// One child entry of a listed directory, classified by file type.
pub enum ListingEntry {
    /// A child directory, to be listed in its own turn.
    Subdir(String),
    /// A regular file, to be handed to the file processor.
    RegularFile(String),
    /// An entry of any other kind (symlink, special file); passed over.
    Other,
    /// An entry whose type could not be determined; reported by the caller
    /// and passed over here.
    Unknown,
}

/// The paths of the child directories among `s`, in listing order.
pub open spec fn subdir_paths(s: Seq<ListingEntry>) -> Seq<String>
    decreases s,
{
    if s.len() == 0 {
        Seq::empty()
    } else {
        subdir_paths(s.drop_last()) + (match s[s.len() - 1] {
            ListingEntry::Subdir(p) => seq![p],
            _ => Seq::empty(),
        })
    }
}

/// The paths of the regular files among `s`, in listing order.
pub open spec fn file_paths(s: Seq<ListingEntry>) -> Seq<String>
    decreases s,
{
    if s.len() == 0 {
        Seq::empty()
    } else {
        file_paths(s.drop_last()) + (match s[s.len() - 1] {
            ListingEntry::RegularFile(p) => seq![p],
            _ => Seq::empty(),
        })
    }
}

/// The directories still waiting to be listed.
pub struct Scanner {
    pub pending: Vec<String>,
}

impl Scanner {
    /// A scan starts with the root as the one pending directory.
    pub fn new(root: String) -> (s: Scanner)
        ensures
            s.pending@ =~= seq![root],
    {
        let mut pending: Vec<String> = Vec::new();
        pending.push(root);
        Scanner { pending }
    }

    /// Take one pending directory to list next, if any is left.
    pub fn next_dir(&mut self) -> (r: Option<String>)
        ensures
            old(self).pending@.len() == 0 ==> r is None && final(self).pending@ == old(self).pending@,
            old(self).pending@.len() > 0 ==> r == Some(old(self).pending@.last()) && final(self).pending@ == old(self).pending@.drop_last(),
    {
        self.pending.pop()
    }

    /// Take in one directory's classified child entries: queue every child
    /// directory for its own listing, return every regular file for
    /// processing, and pass over everything else.
    #[verifier::loop_isolation(false)]
    pub fn on_listing(&mut self, entries: Vec<ListingEntry>) -> (files: Vec<String>)
        ensures
            final(self).pending@ == old(self).pending@ + subdir_paths(entries@),
            files@ == file_paths(entries@),
    {
        let ghost all: Seq<ListingEntry> = entries@;
        let mut entries = entries;
        let mut files: Vec<String> = Vec::new();
        let ghost mut k: int = 0;
        proof {
            assert(all.take(0) =~= Seq::<ListingEntry>::empty());
        }
        while entries.len() > 0
            invariant
                0 <= k && k + entries@.len() == all.len(),
                entries@ =~= all.skip(k),
                self.pending@ == old(self).pending@ + subdir_paths(all.take(k)),
                files@ == file_paths(all.take(k)),
            decreases entries@.len(),
        {
            let e = entries.remove(0);
            proof {
                assert(e == all[k]);
                assert(all.skip(k).drop_first() =~= all.skip(k + 1));
                assert(all.take(k + 1).drop_last() =~= all.take(k));
                assert(all.take(k + 1)[k] == all[k]);
            }
            match e {
                ListingEntry::Subdir(p) => {
                    self.pending.push(p);
                },
                ListingEntry::RegularFile(p) => {
                    files.push(p);
                },
                ListingEntry::Other => {
                },
                ListingEntry::Unknown => {
                },
            }
            proof {
                k = k + 1;
            }
        }
        proof {
            assert(all.take(k) =~= all);
        }
        files
    }
}

} // verus!
