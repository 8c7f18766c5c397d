use vstd::prelude::*;
use vstd::string::*;
use vstd::multiset::Multiset;
use crate::entry::FileEntry;
use crate::path::lower_of;
use crate::path::lowercase;

verus! {

/// Lexicographic order on characters from position `i` on, by code point;
/// a prefix comes first. This is the order of `str`'s own comparison.
pub open spec fn le_from(a: Seq<char>, b: Seq<char>, i: int) -> bool
    decreases a.len() - i,
{
    if i < 0 || i >= a.len() {
        true
    } else if i >= b.len() {
        false
    } else if a[i] != b[i] {
        (a[i] as int) < (b[i] as int)
    } else {
        le_from(a, b, i + 1)
    }
}

/// `a` comes no later than `b` in lexicographic order.
pub open spec fn chars_le(a: Seq<char>, b: Seq<char>) -> bool {
    le_from(a, b, 0)
}

/// `a` goes no later than `b` in a listing: directories first, then by
/// lower-case name.
pub open spec fn entry_le(a: FileEntry, b: FileEntry) -> bool {
    if a.is_dir != b.is_dir {
        a.is_dir
    } else {
        chars_le(lower_of(a.name@), lower_of(b.name@))
    }
}

/// The entries stand in listing order.
pub open spec fn sorted_entries(s: Seq<FileEntry>) -> bool {
    forall|i: int, j: int| 0 <= i < j < s.len() ==> #[trigger] entry_le(s[i], s[j])
}

/// `a` and `b` tie: neither goes before the other.
pub open spec fn ties(a: FileEntry, b: FileEntry) -> bool {
    entry_le(a, b) && entry_le(b, a)
}

/// `r` takes the entries of `v` at the distinct positions `idx`, and entries
/// that tie stand in `r` in the order they had in `v`.
pub open spec fn stable_arrangement(v: Seq<FileEntry>, r: Seq<FileEntry>, idx: Seq<int>) -> bool {
    &&& idx.len() == r.len()
    &&& forall|k: int| 0 <= k < r.len() ==> 0 <= #[trigger] idx[k] < v.len() && r[k] == v[idx[k]]
    &&& forall|i: int, j: int| 0 <= i < j < r.len() ==> #[trigger] idx[i] != #[trigger] idx[j]
    &&& forall|i: int, j: int|
        0 <= i < j < r.len() && #[trigger] ties(r[i], r[j]) ==> idx[i] < idx[j]
}

proof fn lemma_le_from_total(a: Seq<char>, b: Seq<char>, i: int)
    requires
        0 <= i,
    ensures
        le_from(a, b, i) || le_from(b, a, i),
    decreases a.len() - i,
{
    if i < a.len() && i < b.len() {
        if a[i] == b[i] {
            lemma_le_from_total(a, b, i + 1);
        }
    }
}

proof fn lemma_le_from_trans(a: Seq<char>, b: Seq<char>, c: Seq<char>, i: int)
    requires
        0 <= i,
        le_from(a, b, i),
        le_from(b, c, i),
    ensures
        le_from(a, c, i),
    decreases a.len() - i,
{
    if i < a.len() && i < b.len() && i < c.len() && a[i] == b[i] && b[i] == c[i] {
        lemma_le_from_trans(a, b, c, i + 1);
    }
}

/// The listing order is total.
pub proof fn lemma_entry_le_total(a: FileEntry, b: FileEntry)
    ensures
        entry_le(a, b) || entry_le(b, a),
{
    lemma_le_from_total(lower_of(a.name@), lower_of(b.name@), 0);
}

/// The listing order is transitive.
pub proof fn lemma_entry_le_trans(a: FileEntry, b: FileEntry, c: FileEntry)
    requires
        entry_le(a, b),
        entry_le(b, c),
    ensures
        entry_le(a, c),
{
    if a.is_dir == b.is_dir && b.is_dir == c.is_dir {
        lemma_le_from_trans(lower_of(a.name@), lower_of(b.name@), lower_of(c.name@), 0);
    }
}

/// Whether `a` comes no later than `b` in lexicographic order.
pub fn chars_le_exec(a: &str, b: &str) -> (r: bool)
    ensures
        r == chars_le(a@, b@),
{
    let n = a.unicode_len();
    let m = b.unicode_len();
    let mut i: usize = 0;
    while i < n
        invariant
            n == a@.len(),
            m == b@.len(),
            i <= n,
            le_from(a@, b@, 0) == le_from(a@, b@, i as int),
        decreases n - i,
    {
        if i >= m {
            return false;
        }
        let x = a.get_char(i);
        let y = b.get_char(i);
        if x != y {
            return x < y;
        }
        i += 1;
    }
    true
}

/// Whether `a` goes no later than `b`, given their names in lower case.
fn entry_le_exec(a: &FileEntry, ka: &String, b: &FileEntry, kb: &String) -> (r: bool)
    requires
        ka@ == lower_of(a.name@),
        kb@ == lower_of(b.name@),
    ensures
        r == entry_le(*a, *b),
{
    if a.is_dir != b.is_dir {
        a.is_dir
    } else {
        chars_le_exec(ka.as_str(), kb.as_str())
    }
}

/// Puts entries in listing order: directories before files, each group by
/// lower-case name. Entries that tie keep their relative order.
pub fn sort_entries(v: Vec<FileEntry>) -> (r: Vec<FileEntry>)
    ensures
        sorted_entries(r@),
        r@.to_multiset() == v@.to_multiset(),
        exists|idx: Seq<int>| stable_arrangement(v@, r@, idx),
{
    broadcast use vstd::seq_lib::group_to_multiset_ensures;

    let mut rest = v;
    let mut out: Vec<FileEntry> = Vec::new();
    let mut keys: Vec<String> = Vec::new();
    let ghost mut idx: Seq<int> = Seq::empty();
    while rest.len() > 0
        invariant
            sorted_entries(out@),
            keys@.len() == out@.len(),
            forall|k: int| 0 <= k < out@.len() ==> (#[trigger] keys@[k])@ == lower_of(out@[k].name@),
            out@.to_multiset().add(rest@.to_multiset()) == v@.to_multiset(),
            rest@.len() <= v@.len(),
            rest@ == v@.subrange(0, rest@.len() as int),
            idx.len() == out@.len(),
            forall|k: int|
                0 <= k < out@.len() ==> rest@.len() <= #[trigger] idx[k] < v@.len() && out@[k]
                    == v@[idx[k]],
            forall|i: int, j: int| 0 <= i < j < out@.len() ==> #[trigger] idx[i] != #[trigger] idx[j],
            forall|i: int, j: int|
                0 <= i < j < out@.len() && #[trigger] ties(out@[i], out@[j]) ==> idx[i] < idx[j],
        decreases rest.len(),
    {
        let ghost before = rest@;
        let x = rest.pop().unwrap();
        proof {
            assert(before =~= rest@.push(x));
            assert(before == v@.subrange(0, before.len() as int));
            assert(x == before[before.len() - 1]);
            assert(x == v@[rest@.len() as int]);
            assert(rest@ =~= v@.subrange(0, rest@.len() as int));
        }
        let kx = lowercase(x.name.as_str());
        let mut p: usize = 0;
        while p < out.len() && !entry_le_exec(&x, &kx, &out[p], &keys[p])
            invariant
                p <= out@.len(),
                keys@.len() == out@.len(),
                kx@ == lower_of(x.name@),
                forall|k: int| 0 <= k < out@.len() ==> (#[trigger] keys@[k])@ == lower_of(out@[k].name@),
                forall|k: int| 0 <= k < p ==> !entry_le(x, #[trigger] out@[k]),
            decreases out@.len() - p,
        {
            p += 1;
        }
        let ghost old_out = out@;
        let ghost old_keys = keys@;
        proof {
            assert forall|i: int, j: int| 0 <= i < j < old_out.len() + 1 implies #[trigger] entry_le(
                old_out.insert(p as int, x)[i],
                old_out.insert(p as int, x)[j],
            ) by {
                let s = old_out.insert(p as int, x);
                if j < p {
                    assert(entry_le(old_out[i], old_out[j]));
                } else if j == p {
                    lemma_entry_le_total(x, old_out[i]);
                } else if i < p {
                    lemma_entry_le_total(x, old_out[i]);
                    assert(entry_le(x, old_out[p as int]));
                    if p < j - 1 {
                        assert(entry_le(old_out[p as int], old_out[j - 1]));
                        lemma_entry_le_trans(x, old_out[p as int], old_out[j - 1]);
                    }
                    lemma_entry_le_trans(old_out[i], x, old_out[j - 1]);
                } else if i == p {
                    if p < j - 1 {
                        assert(entry_le(old_out[p as int], old_out[j - 1]));
                        lemma_entry_le_trans(x, old_out[p as int], old_out[j - 1]);
                    }
                } else {
                    assert(entry_le(old_out[i - 1], old_out[j - 1]));
                }
            }
        }
        let ghost m = rest@.len() as int;
        let ghost old_idx = idx;
        proof {
            idx = old_idx.insert(p as int, m);
            let s = old_out.insert(p as int, x);
            assert forall|k: int| 0 <= k < s.len() implies m <= #[trigger] idx[k] < v@.len() && s[k]
                == v@[idx[k]] by {
                if k > p {
                    assert(idx[k] == old_idx[k - 1]);
                }
            }
            assert forall|i: int, j: int| 0 <= i < j < s.len() implies #[trigger] idx[i]
                != #[trigger] idx[j] by {
                if i != p && j != p {
                    let i0 = if i < p { i } else { i - 1 };
                    let j0 = if j < p { j } else { j - 1 };
                    assert(idx[i] == old_idx[i0] && idx[j] == old_idx[j0]);
                }
            }
            assert forall|i: int, j: int| 0 <= i < j < s.len() && #[trigger] ties(s[i], s[j]) implies idx[i]
                < idx[j] by {
                if j == p {
                    assert(!entry_le(x, old_out[i]));
                } else if i != p {
                    let i0 = if i < p { i } else { i - 1 };
                    let j0 = if j < p { j } else { j - 1 };
                    assert(s[i] == old_out[i0] && s[j] == old_out[j0]);
                    assert(idx[i] == old_idx[i0] && idx[j] == old_idx[j0]);
                    assert(ties(old_out[i0], old_out[j0]));
                } else {
                    assert(idx[j] == old_idx[j - 1]);
                }
            }
        }
        out.insert(p, x);
        keys.insert(p, kx);
        proof {
            assert(out@ == old_out.insert(p as int, x));
            vstd::seq_lib::to_multiset_insert(old_out, p as int, x);
            vstd::seq_lib::to_multiset_build(rest@, x);
            assert(out@.to_multiset().add(rest@.to_multiset()) =~= old_out.to_multiset().add(
                before.to_multiset(),
            ));
            assert forall|k: int| 0 <= k < out@.len() implies (#[trigger] keys@[k])@ == lower_of(
                out@[k].name@,
            ) by {
                if k > p {
                    assert(keys@[k] == old_keys[k - 1]);
                }
            }
        }
    }
    proof {
        assert(rest@ =~= Seq::<FileEntry>::empty());
        assert(out@.to_multiset().add(Multiset::<FileEntry>::empty()) =~= out@.to_multiset());
        assert(stable_arrangement(v@, out@, idx));
    }
    out
}

} // verus!
