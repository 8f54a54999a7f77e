use filecmp::cache::MAX_CACHE_SIZE;
use filecmp::compare::BUFSIZE;
use filecmp::os::StatResult;
use filecmp::stat::{S_IFDIR, S_IFREG};
use filecmp::{clear_cache, cmp, cmp_chunks, sig, CacheKey, CmpStep, ComparisonCache, Signature};

fn regular(size: u64, mtime: u64) -> Signature {
    Signature { s_ifmt: S_IFREG, st_size: size, st_mtime: mtime }
}

/// Runs a whole comparison the way a caller with file contents in memory would.
fn compare(
    cache: &mut ComparisonCache,
    f1: &str,
    c1: &[u8],
    s1: Signature,
    f2: &str,
    c2: &[u8],
    s2: Signature,
    shallow: bool,
) -> bool {
    match cmp(cache, &f1.to_string(), &f2.to_string(), s1, s2, shallow) {
        CmpStep::Done(b) => b,
        CmpStep::CompareContents(key) => {
            let mut pos = 0;
            let outcome = loop {
                let end1 = (pos + BUFSIZE).min(c1.len());
                let end2 = (pos + BUFSIZE).min(c2.len());
                let a = if pos < c1.len() { &c1[pos..end1] } else { &c1[0..0] };
                let b = if pos < c2.len() { &c2[pos..end2] } else { &c2[0..0] };
                if let Some(v) = cmp_chunks(a, b) {
                    break v;
                }
                pos += BUFSIZE;
            };
            cache.put(key, outcome);
            outcome
        }
    }
}

const FOO: &[u8] = b"0123456789abcdeg";
const BAZ: &[u8] = b"0123456789";

#[test]
fn test_cmp() {
    let mut cache = ComparisonCache::new();
    let foo = regular(16, 1);
    let bar = regular(16, 2);
    let baz = regular(10, 3);
    for shallow in [true, false] {
        assert!(compare(&mut cache, "foo.txt", FOO, foo, "foo.txt", FOO, foo, shallow));
        assert!(compare(&mut cache, "bar.txt", FOO, bar, "bar.txt", FOO, bar, shallow));
        assert!(compare(&mut cache, "baz.txt", BAZ, baz, "baz.txt", BAZ, baz, shallow));

        assert!(compare(&mut cache, "foo.txt", FOO, foo, "bar.txt", FOO, bar, shallow));
        assert!(!compare(&mut cache, "foo.txt", FOO, foo, "baz.txt", BAZ, baz, shallow));
        assert!(!compare(&mut cache, "bar.txt", FOO, bar, "baz.txt", BAZ, baz, shallow));
    }
}

#[test]
fn shallow_equal_signatures_need_no_contents() {
    let cache = ComparisonCache::new();
    let s = regular(16, 7);
    let r = cmp(&cache, &"a".to_string(), &"b".to_string(), s, s, true);
    assert!(matches!(r, CmpStep::Done(true)));
}

#[test]
fn deep_mode_reads_contents_even_with_equal_signatures() {
    let cache = ComparisonCache::new();
    let s = regular(16, 7);
    let r = cmp(&cache, &"a".to_string(), &"b".to_string(), s, s, false);
    match r {
        CmpStep::CompareContents(key) => {
            assert_eq!(key.path1, "a");
            assert_eq!(key.path2, "b");
            assert_eq!(key.sig1, s);
            assert_eq!(key.sig2, s);
        }
        CmpStep::Done(_) => panic!("expected a content comparison"),
    }
}

#[test]
fn same_size_different_contents_compare_unequal() {
    let mut cache = ComparisonCache::new();
    let a = regular(16, 1);
    let b = regular(16, 2);
    assert!(!compare(&mut cache, "a", b"0123456789abcdeg", a, "b", b"0123456789abcdef", b, true));
    assert!(!compare(&mut cache, "a", b"0123456789abcdeg", a, "b", b"0123456789abcdef", b, false));
}

#[test]
fn size_mismatch_decides_without_contents() {
    let cache = ComparisonCache::new();
    for shallow in [true, false] {
        let r = cmp(&cache, &"a".to_string(), &"b".to_string(), regular(16, 1), regular(10, 1), shallow);
        assert!(matches!(r, CmpStep::Done(false)));
    }
}

#[test]
fn non_regular_files_never_compare_equal() {
    let cache = ComparisonCache::new();
    let d = Signature { s_ifmt: S_IFDIR, st_size: 4096, st_mtime: 5 };
    for shallow in [true, false] {
        let r = cmp(&cache, &"d".to_string(), &"d".to_string(), d, d, shallow);
        assert!(matches!(r, CmpStep::Done(false)));
    }
}

#[test]
fn comparison_is_symmetric() {
    let mut cache = ComparisonCache::new();
    let a = regular(16, 1);
    let b = regular(16, 2);
    let c = regular(10, 2);
    for shallow in [true, false] {
        let ab = compare(&mut cache, "a", FOO, a, "b", FOO, b, shallow);
        let ba = compare(&mut cache, "b", FOO, b, "a", FOO, a, shallow);
        assert_eq!(ab, ba);
        let ac = compare(&mut cache, "a", FOO, a, "c", BAZ, c, shallow);
        let ca = compare(&mut cache, "c", BAZ, c, "a", FOO, a, shallow);
        assert_eq!(ac, ca);
    }
}

#[test]
fn cached_outcome_is_used() {
    let mut cache = ComparisonCache::new();
    let a = regular(16, 1);
    let b = regular(16, 2);
    let key = CacheKey { path1: "a".to_string(), path2: "b".to_string(), sig1: a, sig2: b };
    cache.put(key, false);
    let r = cmp(&cache, &"a".to_string(), &"b".to_string(), a, b, false);
    assert!(matches!(r, CmpStep::Done(false)));
    // A changed signature is a different key.
    let b2 = regular(16, 3);
    let r = cmp(&cache, &"a".to_string(), &"b".to_string(), a, b2, false);
    assert!(matches!(r, CmpStep::CompareContents(_)));
}

#[test]
fn cache_is_emptied_after_the_entry_beyond_its_bound() {
    let mut cache = ComparisonCache::new();
    for i in 0..MAX_CACHE_SIZE {
        let key = CacheKey { path1: format!("f{}", i), path2: "g".to_string(), sig1: regular(1, 0), sig2: regular(1, 0) };
        cache.put(key, true);
        assert_eq!(cache.size(), i + 1);
    }
    assert_eq!(cache.size(), 100);
    let key = CacheKey { path1: "last".to_string(), path2: "g".to_string(), sig1: regular(1, 0), sig2: regular(1, 0) };
    cache.put(key.clone(), true);
    assert_eq!(cache.size(), 0);
    assert_eq!(cache.get(&key), None);
    cache.put(key.clone(), false);
    assert_eq!(cache.size(), 1);
    assert_eq!(cache.get(&key), Some(false));
}

#[test]
fn putting_an_existing_key_replaces_its_outcome() {
    let mut cache = ComparisonCache::new();
    let key = CacheKey { path1: "a".to_string(), path2: "b".to_string(), sig1: regular(1, 0), sig2: regular(1, 0) };
    cache.put(key.clone(), true);
    cache.put(key.clone(), false);
    assert_eq!(cache.size(), 1);
    assert_eq!(cache.get(&key), Some(false));
}

#[test]
fn clear_cache_forgets_everything() {
    let mut cache = ComparisonCache::new();
    let key = CacheKey { path1: "a".to_string(), path2: "b".to_string(), sig1: regular(1, 0), sig2: regular(1, 0) };
    cache.put(key.clone(), true);
    clear_cache(&mut cache);
    assert_eq!(cache.size(), 0);
    assert_eq!(cache.get(&key), None);
}

#[test]
fn chunk_verdicts() {
    assert_eq!(cmp_chunks(b"abc", b"abc"), None);
    assert_eq!(cmp_chunks(b"abc", b"abd"), Some(false));
    assert_eq!(cmp_chunks(b"abc", b"ab"), Some(false));
    assert_eq!(cmp_chunks(b"", b""), Some(true));
    assert_eq!(cmp_chunks(b"", b"a"), Some(false));
}

#[test]
fn contents_longer_than_one_chunk() {
    let mut cache = ComparisonCache::new();
    let big: Vec<u8> = (0..(3 * BUFSIZE + 5)).map(|i| (i % 251) as u8).collect();
    let mut other = big.clone();
    other[2 * BUFSIZE + 1] ^= 1;
    let n = big.len() as u64;
    assert!(compare(&mut cache, "x", &big, regular(n, 1), "y", &big, regular(n, 2), false));
    assert!(!compare(&mut cache, "x", &big, regular(n, 1), "z", &other, regular(n, 3), false));
}

#[test]
fn signature_of_stat_record() {
    let st = StatResult {
        st_mode: S_IFREG | 0o644,
        st_ino: 1,
        st_dev: 2,
        st_nlink: 1,
        st_uid: 0,
        st_gid: 0,
        st_size: 16,
        st_atime: 10,
        st_mtime: 20,
        st_ctime: 30,
    };
    assert_eq!(sig(&st), Signature { s_ifmt: S_IFREG, st_size: 16, st_mtime: 20 });
}
