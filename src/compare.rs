//! File comparison: the decision from two signatures, the cache lookup, and the
//! lockstep comparison of the contents one chunk at a time.

use vstd::prelude::*;

use crate::cache::{key_of, CacheKey, ComparisonCache, KeyView};
use crate::listing::{lemma_select_partition, names_of, select, select_upto};
use crate::signature::Signature;
use crate::stat::S_IFREG;

verus! {

/// The size of the chunks in which contents are read and compared.
pub const BUFSIZE: usize = 8192;

/// Whether symbolic links are followed when the compared files are stat'ed.
pub const FOLLOW_SYMLINKS_DEFAULT: bool = true;

/// What the signatures alone decide: `false` unless both files are regular; `true`
/// in shallow mode when the signatures are equal; `false` when the sizes differ.
/// `None` when only the contents can tell.
pub open spec fn verdict_by_signature(s1: Signature, s2: Signature, shallow: bool) -> Option<bool> {
    if s1.s_ifmt != S_IFREG || s2.s_ifmt != S_IFREG {
        Some(false)
    } else if shallow && s1 == s2 {
        Some(true)
    } else if s1.st_size != s2.st_size {
        Some(false)
    } else {
        None
    }
}

/// The result of comparing `f1` with `f2` against the remembered outcomes `m`,
/// where `contents_same` is what a comparison of the contents would find.
pub open spec fn cmp_outcome(
    m: Map<KeyView, bool>,
    f1: Seq<char>,
    f2: Seq<char>,
    s1: Signature,
    s2: Signature,
    shallow: bool,
    contents_same: bool,
) -> bool {
    match verdict_by_signature(s1, s2, shallow) {
        Some(b) => b,
        None => {
            let k = key_of(f1, f2, s1, s2);
            if m.contains_key(k) {
                m[k]
            } else {
                contents_same
            }
        },
    }
}

/// What a comparison needs next.
pub enum CmpStep {
    /// The comparison is decided.
    Done(bool),
    /// The contents must be compared; the outcome belongs in the cache under the key.
    CompareContents(CacheKey),
}

/// Decide the comparison of the file at `f1`, whose signature is `s1`, with the file
/// at `f2`, whose signature is `s2`, as far as the signatures and the cache can.
/// When the contents must be read, the key under which to remember the outcome is
/// returned.
pub fn cmp(
    cache: &ComparisonCache,
    f1: &String,
    f2: &String,
    s1: Signature,
    s2: Signature,
    shallow: bool,
) -> (r: CmpStep)
    requires
        cache.wf(),
    ensures
        match verdict_by_signature(s1, s2, shallow) {
            Some(b) => r == CmpStep::Done(b),
            None => {
                let k = key_of(f1@, f2@, s1, s2);
                if cache@.contains_key(k) {
                    r == CmpStep::Done(cache@[k])
                } else {
                    r matches CmpStep::CompareContents(key) && key@ == k
                }
            },
        },
        forall|c: bool|
            #[trigger] cmp_outcome(cache@, f1@, f2@, s1, s2, shallow, c) == match r {
                CmpStep::Done(b) => b,
                CmpStep::CompareContents(_) => c,
            },
{
    if s1.s_ifmt != S_IFREG || s2.s_ifmt != S_IFREG {
        return CmpStep::Done(false);
    }
    if shallow && s1 == s2 {
        return CmpStep::Done(true);
    }
    if s1.st_size != s2.st_size {
        return CmpStep::Done(false);
    }
    let key = CacheKey { path1: f1.clone(), path2: f2.clone(), sig1: s1, sig2: s2 };
    match cache.get(&key) {
        Some(outcome) => CmpStep::Done(outcome),
        None => CmpStep::CompareContents(key),
    }
}

/// What one pair of chunks read in lockstep decides: `false` when their lengths or
/// their bytes differ, `true` when both files have ended, `None` to read on.
pub open spec fn chunk_verdict(a: Seq<u8>, b: Seq<u8>) -> Option<bool> {
    if a.len() != b.len() {
        Some(false)
    } else if a.len() == 0 {
        Some(true)
    } else if a != b {
        Some(false)
    } else {
        None
    }
}

/// Compare the next chunks of two files, read in lockstep.
pub fn cmp_chunks(buf1: &[u8], buf2: &[u8]) -> (r: Option<bool>)
    ensures
        r == chunk_verdict(buf1@, buf2@),
{
    if buf1.len() != buf2.len() {
        return Some(false);
    }
    if buf1.len() == 0 {
        return Some(true);
    }
    let mut i: usize = 0;
    while i < buf1.len()
        invariant
            buf1@.len() == buf2@.len(),
            i <= buf1@.len(),
            forall|j: int| 0 <= j < i ==> buf1@[j] == buf2@[j],
        decreases buf1@.len() - i,
    {
        if buf1[i] != buf2[i] {
            return Some(false);
        }
        i = i + 1;
    }
    assert(buf1@ =~= buf2@);
    None
}

/// Part the names of `common` by the outcome of comparing the two files of each
/// name, given at the same position of `outcomes`: `Some(true)` when they compared
/// equal, `Some(false)` when they differ, `None` when they could not be compared.
/// Returns the names that compare equal, those that differ, and the rest, each in
/// the order of `common`.
pub fn cmpfiles(common: &Vec<String>, outcomes: &Vec<Option<bool>>) -> (r: (
    Vec<String>,
    Vec<String>,
    Vec<String>,
))
    requires
        outcomes@.len() == common@.len(),
    ensures
        names_of(r.0@) == select(names_of(common@), outcomes@, Some(true)),
        names_of(r.1@) == select(names_of(common@), outcomes@, Some(false)),
        names_of(r.2@) == select(names_of(common@), outcomes@, None::<bool>),
        names_of(common@).to_multiset() == names_of(r.0@).to_multiset().add(
            names_of(r.1@).to_multiset(),
        ).add(names_of(r.2@).to_multiset()),
{
    let ghost names = names_of(common@);
    let mut same: Vec<String> = Vec::new();
    let mut diff: Vec<String> = Vec::new();
    let mut funny: Vec<String> = Vec::new();
    let mut i: usize = 0;
    while i < common.len()
        invariant
            i <= common@.len(),
            outcomes@.len() == common@.len(),
            names == names_of(common@),
            names_of(same@) == select_upto(names, outcomes@, Some(true), i as nat),
            names_of(diff@) == select_upto(names, outcomes@, Some(false), i as nat),
            names_of(funny@) == select_upto(names, outcomes@, None, i as nat),
        decreases common@.len() - i,
    {
        assert(names[i as int] == common@[i as int]@);
        match outcomes[i] {
            Some(true) => {
                same.push(common[i].clone());
                assert(names_of(same@) =~= select_upto(names, outcomes@, Some(true), i as nat).push(
                    names[i as int],
                ));
            },
            Some(false) => {
                diff.push(common[i].clone());
                assert(names_of(diff@) =~= select_upto(names, outcomes@, Some(false), i as nat).push(
                    names[i as int],
                ));
            },
            None => {
                funny.push(common[i].clone());
                assert(names_of(funny@) =~= select_upto(names, outcomes@, None, i as nat).push(
                    names[i as int],
                ));
            },
        }
        i = i + 1;
    }
    proof {
        lemma_outcomes_partition(names, outcomes@);
    }
    (same, diff, funny)
}

/// Whatever the outcomes of comparing the shared files, the files that compare
/// equal, those that differ and those that could not be compared together hold each
/// shared file exactly as often as `files` does.
pub proof fn lemma_outcomes_partition(files: Seq<Seq<char>>, outcomes: Seq<Option<bool>>)
    requires
        outcomes.len() == files.len(),
    ensures
        files.to_multiset() == select(files, outcomes, Some(true)).to_multiset().add(
            select(files, outcomes, Some(false)).to_multiset(),
        ).add(select(files, outcomes, None::<bool>).to_multiset()),
{
    assert forall|j: int| 0 <= j < files.len() implies #[trigger] outcomes[j] == Some(true)
        || outcomes[j] == Some(false) || outcomes[j] == None::<bool> by {
        match outcomes[j] {
            Some(b) => {
                assert(b || !b);
            },
            None => {},
        }
    }
    lemma_select_partition(files, outcomes, Some(true), Some(false), None, files.len());
    assert(files.subrange(0, files.len() as int) =~= files);
}

/// A regular file compares equal to itself in shallow mode; in deep mode it does
/// so when its contents compare equal and the cache holds no contrary outcome for it.
pub proof fn lemma_cmp_reflexive(
    m: Map<KeyView, bool>,
    f: Seq<char>,
    s: Signature,
    shallow: bool,
    contents_same: bool,
)
    requires
        s.s_ifmt == S_IFREG,
        !shallow ==> contents_same,
        !shallow && m.contains_key(key_of(f, f, s, s)) ==> m[key_of(f, f, s, s)],
    ensures
        cmp_outcome(m, f, f, s, s, shallow, contents_same),
{
}

/// A chunk never differs from itself.
pub proof fn lemma_chunks_reflexive(a: Seq<u8>)
    ensures
        chunk_verdict(a, a) != Some(false),
{
}

/// The signatures decide the same for `(a, b)` as for `(b, a)`; and so does the whole
/// comparison when the cache remembers the two orders alike.
pub proof fn lemma_cmp_symmetric(
    m: Map<KeyView, bool>,
    a: Seq<char>,
    b: Seq<char>,
    s1: Signature,
    s2: Signature,
    shallow: bool,
    contents_same: bool,
)
    requires
        m.contains_key(key_of(a, b, s1, s2)) == m.contains_key(key_of(b, a, s2, s1)),
        m.contains_key(key_of(a, b, s1, s2)) ==> m[key_of(a, b, s1, s2)] == m[key_of(b, a, s2, s1)],
    ensures
        verdict_by_signature(s1, s2, shallow) == verdict_by_signature(s2, s1, shallow),
        cmp_outcome(m, a, b, s1, s2, shallow, contents_same) == cmp_outcome(
            m,
            b,
            a,
            s2,
            s1,
            shallow,
            contents_same,
        ),
{
}

/// The chunk decision does not depend on the order of the two chunks.
pub proof fn lemma_chunks_symmetric(a: Seq<u8>, b: Seq<u8>)
    ensures
        chunk_verdict(a, b) == chunk_verdict(b, a),
{
}

/// Two regular files with equal signatures compare equal in shallow mode, whatever
/// the cache holds and without their contents.
pub proof fn lemma_equal_signatures_shallow(
    m: Map<KeyView, bool>,
    a: Seq<char>,
    b: Seq<char>,
    s: Signature,
    contents_same: bool,
)
    requires
        s.s_ifmt == S_IFREG,
    ensures
        verdict_by_signature(s, s, true) == Some(true),
        cmp_outcome(m, a, b, s, s, true, contents_same),
{
}

/// What compares equal in deep mode compares equal in shallow mode too.
pub proof fn lemma_deep_implies_shallow(
    m: Map<KeyView, bool>,
    a: Seq<char>,
    b: Seq<char>,
    s1: Signature,
    s2: Signature,
    contents_same: bool,
)
    ensures
        cmp_outcome(m, a, b, s1, s2, false, contents_same) ==> cmp_outcome(
            m,
            a,
            b,
            s1,
            s2,
            true,
            contents_same,
        ),
{
}

/// Two regular files of different sizes compare unequal in both modes, decided by
/// their signatures alone, so that no contents are read.
pub proof fn lemma_size_mismatch(s1: Signature, s2: Signature, shallow: bool)
    requires
        s1.s_ifmt == S_IFREG,
        s2.s_ifmt == S_IFREG,
        s1.st_size != s2.st_size,
    ensures
        verdict_by_signature(s1, s2, shallow) == Some(false),
{
}

} // verus!
