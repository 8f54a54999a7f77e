//! The comparison of two directories: their listings, the names they share, and
//! the classification of the shared names.

use vstd::prelude::*;

use crate::compare::cmpfiles;
use crate::listing::{
    common_names, entries_of, filter, kept, dropped, lemma_select_partition, listed, listed_names,
    lookup_mode, mode_for, names_of, names_sorted, select, select_upto, sort_names, DirEntry,
};
use crate::stat::{ifmt_of, S_IFDIR, S_IFMT, S_IFREG, S_ISDIR, S_ISREG};

verus! {

/// How a name shared by both directories is classified.
#[derive(Clone, Copy, Debug, PartialEq, Eq, Structural)]
pub enum EntryKind {
    /// A directory on both sides.
    Dir,
    /// A regular file on both sides.
    File,
    /// Types that differ, a type that is neither, or a side that could not be stat'ed.
    Funny,
}

/// The class of a shared name whose two sides have the modes `l` and `r` (`None`
/// where the stat call failed).
pub open spec fn kind_of(l: Option<u32>, r: Option<u32>) -> EntryKind {
    match (l, r) {
        (Some(lm), Some(rm)) => {
            if ifmt_of(lm) != ifmt_of(rm) {
                EntryKind::Funny
            } else if ifmt_of(lm) == S_IFDIR {
                EntryKind::Dir
            } else if ifmt_of(lm) == S_IFREG {
                EntryKind::File
            } else {
                EntryKind::Funny
            }
        },
        _ => EntryKind::Funny,
    }
}

/// The classes of the names `common`, each by the first entry of that name on
/// either side.
pub open spec fn kinds_of(
    common: Seq<Seq<char>>,
    left: Seq<(Seq<char>, Option<u32>)>,
    right: Seq<(Seq<char>, Option<u32>)>,
) -> Seq<EntryKind> {
    Seq::new(common.len(), |i: int| kind_of(mode_for(left, common[i]), mode_for(right, common[i])))
}

/// For any shared names and any two listings, the names classified as directories,
/// as regular files and as neither together hold each shared name exactly as often
/// as `common` does.
pub proof fn lemma_kinds_partition(
    common: Seq<Seq<char>>,
    left: Seq<(Seq<char>, Option<u32>)>,
    right: Seq<(Seq<char>, Option<u32>)>,
)
    ensures
        common.to_multiset() == select(common, kinds_of(common, left, right), EntryKind::Dir).to_multiset().add(
            select(common, kinds_of(common, left, right), EntryKind::File).to_multiset(),
        ).add(select(common, kinds_of(common, left, right), EntryKind::Funny).to_multiset()),
{
    let kinds = kinds_of(common, left, right);
    lemma_select_partition(common, kinds, EntryKind::Dir, EntryKind::File, EntryKind::Funny, common.len());
    assert(common.subrange(0, common.len() as int) =~= common);
}

/// Classify a shared name by the modes of its two sides.
pub fn classify(l: Option<u32>, r: Option<u32>) -> (k: EntryKind)
    ensures
        k == kind_of(l, r),
{
    match (l, r) {
        (Some(lm), Some(rm)) => {
            let left_type = S_IFMT(lm);
            let right_type = S_IFMT(rm);
            assert(ifmt_of(ifmt_of(lm)) == ifmt_of(lm)) by (bit_vector);
            if left_type != right_type {
                EntryKind::Funny
            } else if S_ISDIR(left_type) {
                EntryKind::Dir
            } else if S_ISREG(left_type) {
                EntryKind::File
            } else {
                EntryKind::Funny
            }
        },
        _ => EntryKind::Funny,
    }
}

/// The comparison of two directories `left` and `right`.
///
/// - `left_list`, `right_list`: the names in each directory, less the skipped ones, sorted.
/// - `common`: the names in both, in the order of `left_list`.
/// - `left_only`, `right_only`: the names in one directory only.
/// - `common_dirs`, `common_files`, `common_funny`: the shared names that are
///   directories on both sides, regular files on both sides, and the rest.
/// - `same_files`, `diff_files`, `funny_files`: the shared regular files that compare
///   equal, that differ, and that could not be compared.
pub struct DirCmp {
    pub left: String,
    pub right: String,
    pub left_list: Vec<String>,
    pub right_list: Vec<String>,
    pub common: Vec<String>,
    pub left_only: Vec<String>,
    pub right_only: Vec<String>,
    pub common_dirs: Vec<String>,
    pub common_files: Vec<String>,
    pub common_funny: Vec<String>,
    pub same_files: Vec<String>,
    pub diff_files: Vec<String>,
    pub funny_files: Vec<String>,
}

impl DirCmp {
    /// Compare the directory `left`, whose entries are `left_entries`, with the
    /// directory `right`, whose entries are `right_entries`. The shared regular files
    /// are not compared yet: `compare_files` records how they compare.
    pub fn new(
        left: String,
        right: String,
        left_entries: &Vec<DirEntry>,
        right_entries: &Vec<DirEntry>,
    ) -> (r: DirCmp)
        ensures
            r.left == left,
            r.right == right,
            names_sorted(names_of(r.left_list@)),
            names_of(r.left_list@).to_multiset() == listed_names(entries_of(left_entries@)).to_multiset(),
            names_sorted(names_of(r.right_list@)),
            names_of(r.right_list@).to_multiset() == listed_names(entries_of(right_entries@)).to_multiset(),
            names_of(r.common@) == kept(names_of(r.left_list@), names_of(r.right_list@)),
            names_of(r.left_only@) == dropped(names_of(r.left_list@), names_of(r.common@)),
            names_of(r.right_only@) == dropped(names_of(r.right_list@), names_of(r.common@)),
            names_of(r.common_dirs@) == select(
                names_of(r.common@),
                kinds_of(names_of(r.common@), entries_of(left_entries@), entries_of(right_entries@)),
                EntryKind::Dir,
            ),
            names_of(r.common_files@) == select(
                names_of(r.common@),
                kinds_of(names_of(r.common@), entries_of(left_entries@), entries_of(right_entries@)),
                EntryKind::File,
            ),
            names_of(r.common_funny@) == select(
                names_of(r.common@),
                kinds_of(names_of(r.common@), entries_of(left_entries@), entries_of(right_entries@)),
                EntryKind::Funny,
            ),
            names_of(r.common@).to_multiset() == names_of(r.common_dirs@).to_multiset().add(
                names_of(r.common_files@).to_multiset(),
            ).add(names_of(r.common_funny@).to_multiset()),
            r.same_files@.len() == 0,
            r.diff_files@.len() == 0,
            r.funny_files@.len() == 0,
    {
        let left_list = sort_names(listed(left_entries));
        let right_list = sort_names(listed(right_entries));
        let common = common_names(&left_list, &right_list);
        let left_only = filter(&left_list, &common);
        let right_only = filter(&right_list, &common);
        let ghost names = names_of(common@);
        let ghost kinds = kinds_of(names, entries_of(left_entries@), entries_of(right_entries@));
        let mut common_dirs: Vec<String> = Vec::new();
        let mut common_files: Vec<String> = Vec::new();
        let mut common_funny: Vec<String> = Vec::new();
        let mut i: usize = 0;
        while i < common.len()
            invariant
                i <= common@.len(),
                names == names_of(common@),
                kinds == kinds_of(names, entries_of(left_entries@), entries_of(right_entries@)),
                names_of(common_dirs@) == select_upto(names, kinds, EntryKind::Dir, i as nat),
                names_of(common_files@) == select_upto(names, kinds, EntryKind::File, i as nat),
                names_of(common_funny@) == select_upto(names, kinds, EntryKind::Funny, i as nat),
            decreases common@.len() - i,
        {
            let x = &common[i];
            assert(names[i as int] == x@);
            let k = classify(lookup_mode(left_entries, x), lookup_mode(right_entries, x));
            assert(kinds[i as int] == k);
            match k {
                EntryKind::Dir => {
                    common_dirs.push(x.clone());
                    assert(names_of(common_dirs@) =~= select_upto(names, kinds, EntryKind::Dir, i as nat).push(x@));
                },
                EntryKind::File => {
                    common_files.push(x.clone());
                    assert(names_of(common_files@) =~= select_upto(names, kinds, EntryKind::File, i as nat).push(x@));
                },
                EntryKind::Funny => {
                    common_funny.push(x.clone());
                    assert(names_of(common_funny@) =~= select_upto(names, kinds, EntryKind::Funny, i as nat).push(x@));
                },
            }
            i = i + 1;
        }
        proof {
            lemma_kinds_partition(names, entries_of(left_entries@), entries_of(right_entries@));
        }
        DirCmp {
            left,
            right,
            left_list,
            right_list,
            common,
            left_only,
            right_only,
            common_dirs,
            common_files,
            common_funny,
            same_files: Vec::new(),
            diff_files: Vec::new(),
            funny_files: Vec::new(),
        }
    }

    /// Record how the shared regular files compare, given by the outcome of a shallow
    /// comparison at the position of each name in `common_files` (`None` where the
    /// comparison failed). Nothing else changes.
    pub fn compare_files(&mut self, outcomes: &Vec<Option<bool>>)
        requires
            outcomes@.len() == old(self).common_files@.len(),
        ensures
            final(self).left == old(self).left,
            final(self).right == old(self).right,
            final(self).left_list == old(self).left_list,
            final(self).right_list == old(self).right_list,
            final(self).common == old(self).common,
            final(self).left_only == old(self).left_only,
            final(self).right_only == old(self).right_only,
            final(self).common_dirs == old(self).common_dirs,
            final(self).common_files == old(self).common_files,
            final(self).common_funny == old(self).common_funny,
            names_of(final(self).same_files@) == select(names_of(old(self).common_files@), outcomes@, Some(true)),
            names_of(final(self).diff_files@) == select(names_of(old(self).common_files@), outcomes@, Some(false)),
            names_of(final(self).funny_files@) == select(names_of(old(self).common_files@), outcomes@, None::<bool>),
            names_of(final(self).common_files@).to_multiset() == names_of(final(self).same_files@).to_multiset().add(
                names_of(final(self).diff_files@).to_multiset(),
            ).add(names_of(final(self).funny_files@).to_multiset()),
    {
        let (same, diff, funny) = cmpfiles(&self.common_files, outcomes);
        self.same_files = same;
        self.diff_files = diff;
        self.funny_files = funny;
    }
}

} // verus!
