//! Directory listings: the entries that are skipped, the order of names, the
//! sorting of a listing, and the selection of names by a tag.

use vstd::prelude::*;
use vstd::string::*;

verus! {

/// One entry of a directory listing: its base name, and the mode bits that a stat
/// call following symbolic links reported for it, or `None` when that call failed.
#[derive(Debug)]
pub struct DirEntry {
    pub name: String,
    pub mode: Option<u32>,
}

impl View for DirEntry {
    type V = (Seq<char>, Option<u32>);

    open spec fn view(&self) -> (Seq<char>, Option<u32>) {
        (self.name@, self.mode)
    }
}

/// The views of a sequence of strings.
pub open spec fn names_of(v: Seq<String>) -> Seq<Seq<char>> {
    v.map_values(|s: String| s@)
}

/// The views of a sequence of entries.
pub open spec fn entries_of(v: Seq<DirEntry>) -> Seq<(Seq<char>, Option<u32>)> {
    v.map_values(|e: DirEntry| e@)
}

/// Names left out of every listing: version-control and cache directories, and
/// the names of the directory itself and of its parent.
pub open spec fn is_skipped_name(n: Seq<char>) -> bool {
    n == "RCS"@ || n == "CVS"@ || n == "tags"@ || n == ".git"@ || n == ".hg"@ || n == ".bzr"@
        || n == "_darcs"@ || n == "__pycache__"@ || n == "."@ || n == ".."@
}

/// Whether `name` is `lit`.
fn is_name(name: &String, lit: &str) -> (r: bool)
    ensures
        r == (name@ == lit@),
{
    let l: String = lit.to_owned();
    *name == l
}

/// Whether `name` is left out of listings.
pub fn is_skipped(name: &String) -> (r: bool)
    ensures
        r == is_skipped_name(name@),
{
    is_name(name, "RCS") || is_name(name, "CVS") || is_name(name, "tags") || is_name(name, ".git")
        || is_name(name, ".hg") || is_name(name, ".bzr") || is_name(name, "_darcs") || is_name(
        name,
        "__pycache__",
    ) || is_name(name, ".") || is_name(name, "..")
}

/// Lexicographic order of names, character by character by code point; a proper
/// prefix comes first.
pub open spec fn name_lt(a: Seq<char>, b: Seq<char>) -> bool
    decreases a.len(),
{
    if a.len() == 0 {
        b.len() > 0
    } else if b.len() == 0 {
        false
    } else if a[0] != b[0] {
        (a[0] as u32) < (b[0] as u32)
    } else {
        name_lt(a.drop_first(), b.drop_first())
    }
}

/// No name comes before itself.
pub proof fn lemma_name_lt_irreflexive(a: Seq<char>)
    ensures
        !name_lt(a, a),
    decreases a.len(),
{
    if a.len() > 0 {
        lemma_name_lt_irreflexive(a.drop_first());
    }
}

/// The order of names is transitive.
pub proof fn lemma_name_lt_transitive(a: Seq<char>, b: Seq<char>, c: Seq<char>)
    requires
        name_lt(a, b),
        name_lt(b, c),
    ensures
        name_lt(a, c),
    decreases a.len(),
{
    if a.len() > 0 && b.len() > 0 && c.len() > 0 && a[0] == b[0] && b[0] == c[0] {
        lemma_name_lt_transitive(a.drop_first(), b.drop_first(), c.drop_first());
    }
}

/// Whether `a` comes before `b`.
pub fn name_less(a: &String, b: &String) -> (r: bool)
    ensures
        r == name_lt(a@, b@),
{
    let sa = a.as_str();
    let sb = b.as_str();
    let la = sa.unicode_len();
    let lb = sb.unicode_len();
    let mut i: usize = 0;
    assert(a@.subrange(0, la as int) =~= a@);
    assert(b@.subrange(0, lb as int) =~= b@);
    while i < la && i < lb
        invariant
            la == a@.len(),
            lb == b@.len(),
            sa@ == a@,
            sb@ == b@,
            i <= la,
            i <= lb,
            name_lt(a@, b@) == name_lt(a@.subrange(i as int, la as int), b@.subrange(i as int, lb as int)),
        decreases la - i,
    {
        let ca = sa.get_char(i);
        let cb = sb.get_char(i);
        let ghost ra = a@.subrange(i as int, la as int);
        let ghost rb = b@.subrange(i as int, lb as int);
        assert(ra[0] == ca && rb[0] == cb);
        if ca != cb {
            return (ca as u32) < (cb as u32);
        }
        assert(ra.drop_first() =~= a@.subrange(i + 1, la as int));
        assert(rb.drop_first() =~= b@.subrange(i + 1, lb as int));
        i = i + 1;
    }
    i < lb
}

/// Names in order: no later name comes before an earlier one.
pub open spec fn names_sorted(s: Seq<Seq<char>>) -> bool {
    forall|i: int, j: int| 0 <= i < j < s.len() ==> !name_lt(#[trigger] s[j], #[trigger] s[i])
}

/// The names of `v`, sorted; equal names keep their order.
pub fn sort_names(v: Vec<String>) -> (r: Vec<String>)
    ensures
        names_sorted(names_of(r@)),
        names_of(r@).to_multiset() == names_of(v@).to_multiset(),
{
    let mut out: Vec<String> = Vec::new();
    let mut i: usize = 0;
    assert(names_of(v@.subrange(0, 0)) =~= names_of(out@));
    while i < v.len()
        invariant
            i <= v@.len(),
            names_sorted(names_of(out@)),
            names_of(out@).to_multiset() == names_of(v@.subrange(0, i as int)).to_multiset(),
        decreases v@.len() - i,
    {
        let e = v[i].clone();
        let mut p: usize = 0;
        while p < out.len() && !name_less(&e, &out[p])
            invariant
                p <= out@.len(),
                forall|q: int| 0 <= q < p ==> !name_lt(e@, #[trigger] out@[q]@),
            decreases out@.len() - p,
        {
            p = p + 1;
        }
        let ghost before = out@;
        out.insert(p, e.clone());
        proof {
            let eb = names_of(before);
            assert(names_of(out@) =~= eb.insert(p as int, e@));
            vstd::seq_lib::to_multiset_insert(eb, p as int, e@);
            assert(v@.subrange(0, i + 1) =~= v@.subrange(0, i as int).push(v@[i as int]));
            assert(names_of(v@.subrange(0, i + 1)) =~= names_of(v@.subrange(0, i as int)).push(e@));
            names_of(v@.subrange(0, i as int)).to_multiset_ensures();
            let s = names_of(out@);
            assert forall|a: int, b: int| 0 <= a < b < s.len() implies !name_lt(
                #[trigger] s[b],
                #[trigger] s[a],
            ) by {
                if b < p {
                    assert(s[a] == eb[a] && s[b] == eb[b]);
                } else if b == p {
                    assert(s[a] == eb[a]);
                } else if a > p {
                    assert(s[a] == eb[a - 1] && s[b] == eb[b - 1]);
                } else if a == p {
                    assert(s[b] == eb[b - 1]);
                    assert(name_lt(e@, before[p as int]@));
                    if name_lt(s[b], e@) {
                        lemma_name_lt_transitive(s[b], e@, before[p as int]@);
                        if b - 1 == p {
                            lemma_name_lt_irreflexive(s[b]);
                        } else {
                            assert(eb[p as int] == before[p as int]@);
                        }
                    }
                } else {
                    assert(s[a] == eb[a] && s[b] == eb[b - 1]);
                }
            }
        }
        i = i + 1;
    }
    assert(v@.subrange(0, v@.len() as int) =~= v@);
    out
}

/// The names of the entries that listings keep, in their order.
pub open spec fn listed_names(es: Seq<(Seq<char>, Option<u32>)>) -> Seq<Seq<char>> {
    es.map_values(|e: (Seq<char>, Option<u32>)| e.0).filter(|n: Seq<char>| !is_skipped_name(n))
}

/// The names of the entries that are not skipped, in their order.
pub fn listed(entries: &Vec<DirEntry>) -> (r: Vec<String>)
    ensures
        names_of(r@) == listed_names(entries_of(entries@)),
{
    let ghost all = entries_of(entries@).map_values(|e: (Seq<char>, Option<u32>)| e.0);
    let mut r: Vec<String> = Vec::new();
    let mut i: usize = 0;
    while i < entries.len()
        invariant
            i <= entries@.len(),
            all == entries_of(entries@).map_values(|e: (Seq<char>, Option<u32>)| e.0),
            names_of(r@) == all.subrange(0, i as int).filter(|n: Seq<char>| !is_skipped_name(n)),
        decreases entries@.len() - i,
    {
        let ghost prev = all.subrange(0, i as int);
        assert(all.subrange(0, i + 1) =~= prev.push(entries@[i as int].name@));
        proof {
            prev.lemma_filter_push(entries@[i as int].name@, |n: Seq<char>| !is_skipped_name(n));
        }
        if !is_skipped(&entries[i].name) {
            r.push(entries[i].name.clone());
            assert(names_of(r@) =~= prev.filter(|n: Seq<char>| !is_skipped_name(n)).push(
                entries@[i as int].name@,
            ));
        } else {
            assert(names_of(r@) =~= prev.filter(|n: Seq<char>| !is_skipped_name(n)));
        }
        i = i + 1;
    }
    assert(all.subrange(0, all.len() as int) =~= all);
    r
}

/// The mode of the first entry named `name`; `None` when there is none.
pub open spec fn mode_for(es: Seq<(Seq<char>, Option<u32>)>, name: Seq<char>) -> Option<u32>
    decreases es.len(),
{
    if es.len() == 0 {
        None
    } else if es[0].0 == name {
        es[0].1
    } else {
        mode_for(es.drop_first(), name)
    }
}

/// The mode of the first entry named `name`.
pub fn lookup_mode(entries: &Vec<DirEntry>, name: &String) -> (r: Option<u32>)
    ensures
        r == mode_for(entries_of(entries@), name@),
{
    let ghost es = entries_of(entries@);
    let mut i: usize = 0;
    assert(es.subrange(0, es.len() as int) =~= es);
    while i < entries.len()
        invariant
            i <= entries@.len(),
            es == entries_of(entries@),
            mode_for(es, name@) == mode_for(es.subrange(i as int, es.len() as int), name@),
        decreases entries@.len() - i,
    {
        let ghost rest = es.subrange(i as int, es.len() as int);
        assert(rest[0] == entries@[i as int]@);
        if entries[i].name == *name {
            return entries[i].mode;
        }
        assert(rest.drop_first() =~= es.subrange(i + 1, es.len() as int));
        i = i + 1;
    }
    None
}

/// Whether `v` holds `x`.
pub fn contains_name(v: &Vec<String>, x: &String) -> (r: bool)
    ensures
        r == names_of(v@).contains(x@),
{
    let mut i: usize = 0;
    while i < v.len()
        invariant
            i <= v@.len(),
            forall|j: int| 0 <= j < i ==> #[trigger] v@[j]@ != x@,
        decreases v@.len() - i,
    {
        if v[i] == *x {
            assert(names_of(v@)[i as int] == x@);
            return true;
        }
        i = i + 1;
    }
    proof {
        if names_of(v@).contains(x@) {
            let j = choose|j: int| 0 <= j < names_of(v@).len() && names_of(v@)[j] == x@;
            assert(v@[j]@ == x@);
        }
    }
    false
}

/// The names of `flist` that `keep` holds, in their order in `flist`.
pub open spec fn kept(flist: Seq<Seq<char>>, keep: Seq<Seq<char>>) -> Seq<Seq<char>> {
    flist.filter(|x: Seq<char>| keep.contains(x))
}

/// The names of `flist` that `skip` does not hold, in their order in `flist`.
pub open spec fn dropped(flist: Seq<Seq<char>>, skip: Seq<Seq<char>>) -> Seq<Seq<char>> {
    flist.filter(|x: Seq<char>| !skip.contains(x))
}

/// The names of `left` that `right` also holds, in their order in `left`.
pub fn common_names(left: &Vec<String>, right: &Vec<String>) -> (r: Vec<String>)
    ensures
        names_of(r@) == kept(names_of(left@), names_of(right@)),
{
    let mut r: Vec<String> = Vec::new();
    let mut i: usize = 0;
    while i < left.len()
        invariant
            i <= left@.len(),
            names_of(r@) == kept(names_of(left@.subrange(0, i as int)), names_of(right@)),
        decreases left@.len() - i,
    {
        let ghost prev = names_of(left@.subrange(0, i as int));
        assert(names_of(left@.subrange(0, i + 1)) =~= prev.push(left@[i as int]@));
        proof {
            prev.lemma_filter_push(left@[i as int]@, |x: Seq<char>| names_of(right@).contains(x));
        }
        if contains_name(right, &left[i]) {
            r.push(left[i].clone());
            assert(names_of(r@) =~= kept(prev, names_of(right@)).push(left@[i as int]@));
        } else {
            assert(names_of(r@) =~= kept(prev, names_of(right@)));
        }
        i = i + 1;
    }
    assert(left@.subrange(0, left@.len() as int) =~= left@);
    r
}

/// The items of `flist` that `skip` does not hold, in their order in `flist`.
pub fn filter(flist: &Vec<String>, skip: &Vec<String>) -> (r: Vec<String>)
    ensures
        names_of(r@) == dropped(names_of(flist@), names_of(skip@)),
{
    let mut r: Vec<String> = Vec::new();
    let mut i: usize = 0;
    while i < flist.len()
        invariant
            i <= flist@.len(),
            names_of(r@) == dropped(names_of(flist@.subrange(0, i as int)), names_of(skip@)),
        decreases flist@.len() - i,
    {
        let ghost prev = names_of(flist@.subrange(0, i as int));
        assert(names_of(flist@.subrange(0, i + 1)) =~= prev.push(flist@[i as int]@));
        proof {
            prev.lemma_filter_push(flist@[i as int]@, |x: Seq<char>| !names_of(skip@).contains(x));
        }
        if !contains_name(skip, &flist[i]) {
            r.push(flist[i].clone());
            assert(names_of(r@) =~= dropped(prev, names_of(skip@)).push(flist@[i as int]@));
        } else {
            assert(names_of(r@) =~= dropped(prev, names_of(skip@)));
        }
        i = i + 1;
    }
    assert(flist@.subrange(0, flist@.len() as int) =~= flist@);
    r
}

/// The items among the first `n` of `items` whose tag is `tag`, in order.
pub open spec fn select_upto<T, K>(items: Seq<T>, tags: Seq<K>, tag: K, n: nat) -> Seq<T>
    decreases n,
{
    if n == 0 {
        Seq::empty()
    } else {
        let rest = select_upto(items, tags, tag, (n - 1) as nat);
        if tags[n - 1] == tag {
            rest.push(items[n - 1])
        } else {
            rest
        }
    }
}

/// The items of `items` whose tag, at the same position in `tags`, is `tag`.
pub open spec fn select<T, K>(items: Seq<T>, tags: Seq<K>, tag: K) -> Seq<T> {
    select_upto(items, tags, tag, items.len())
}

/// Selecting by three distinct tags that cover every position parts the first `n`
/// items into three: together they hold each item exactly as often.
pub proof fn lemma_select_partition<T, K>(items: Seq<T>, tags: Seq<K>, t1: K, t2: K, t3: K, n: nat)
    requires
        n <= items.len(),
        n <= tags.len(),
        t1 != t2,
        t1 != t3,
        t2 != t3,
        forall|i: int| 0 <= i < n ==> #[trigger] tags[i] == t1 || tags[i] == t2 || tags[i] == t3,
    ensures
        items.subrange(0, n as int).to_multiset() == select_upto(items, tags, t1, n).to_multiset().add(
            select_upto(items, tags, t2, n).to_multiset(),
        ).add(select_upto(items, tags, t3, n).to_multiset()),
    decreases n,
{
    broadcast use vstd::seq_lib::group_to_multiset_ensures;
    broadcast use vstd::multiset::group_multiset_axioms;

    if n == 0 {
        assert(items.subrange(0, 0) =~= Seq::<T>::empty());
        assert(Seq::<T>::empty().to_multiset() =~= vstd::multiset::Multiset::empty());
        assert(items.subrange(0, 0).to_multiset() =~= vstd::multiset::Multiset::empty());
    } else {
        lemma_select_partition(items, tags, t1, t2, t3, (n - 1) as nat);
        assert(items.subrange(0, n as int) =~= items.subrange(0, n - 1).push(items[n - 1]));
        let a = select_upto(items, tags, t1, (n - 1) as nat).to_multiset();
        let b = select_upto(items, tags, t2, (n - 1) as nat).to_multiset();
        let c = select_upto(items, tags, t3, (n - 1) as nat).to_multiset();
        let x = items[n - 1];
        if tags[n - 1] == t1 {
            assert(a.insert(x).add(b).add(c) =~= a.add(b).add(c).insert(x));
        } else if tags[n - 1] == t2 {
            assert(a.add(b.insert(x)).add(c) =~= a.add(b).add(c).insert(x));
        } else {
            assert(a.add(b).add(c.insert(x)) =~= a.add(b).add(c).insert(x));
        }
    }
}

} // verus!
