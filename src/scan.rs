use vstd::prelude::*;
use crate::entry::FileEntry;
use crate::entry::FsError;
use crate::entry::RawEntry;
use crate::path::is_hidden;
use crate::path::is_hidden_name;
use crate::path::is_markdown_file;
use crate::path::is_markdown_path;
use crate::order::sort_entries;
use crate::order::sorted_entries;
use crate::order::stable_arrangement;
use crate::order::ties;

verus! {

/// A listing item that the browser shows.
pub open spec fn shown(r: RawEntry) -> bool {
    !is_hidden(r.name@)
}

/// The entry carries the listing item's name, path and kind.
pub open spec fn made_from(e: FileEntry, r: RawEntry) -> bool {
    &&& e.name@ == r.name@
    &&& r.path is Some
    &&& r.path->0@ == e.path@
    &&& e.is_dir == r.is_dir
}

/// How many items of a listing are shown.
pub open spec fn count_shown(s: Seq<RawEntry>) -> nat
    decreases s.len(),
{
    if s.len() == 0 {
        0
    } else {
        count_shown(s.drop_last()) + if shown(s.last()) {
            1nat
        } else {
            0nat
        }
    }
}

/// Some shown item of the listing is the source of `e`.
pub open spec fn has_source(e: FileEntry, listing: Seq<RawEntry>) -> bool {
    exists|j: int| 0 <= j < listing.len() && shown(listing[j]) && made_from(e, listing[j])
}

/// Some entry of `es` was made from `r`.
pub open spec fn has_entry(es: Seq<FileEntry>, r: RawEntry) -> bool {
    exists|k: int| 0 <= k < es.len() && made_from(es[k], r)
}

/// `es` holds one entry for each shown item of the listing, and no other.
pub open spec fn lists(es: Seq<FileEntry>, listing: Seq<RawEntry>) -> bool {
    &&& es.len() == count_shown(listing)
    &&& forall|k: int| 0 <= k < es.len() ==> has_source(#[trigger] es[k], listing)
    &&& forall|j: int|
        0 <= j < listing.len() && #[trigger] shown(listing[j]) ==> has_entry(es, listing[j])
}

/// Entries that tie stand in the order of the listing items they came from.
pub open spec fn ties_in_listing_order(es: Seq<FileEntry>, listing: Seq<RawEntry>) -> bool {
    forall|i: int, j: int|
        0 <= i < j < es.len() && #[trigger] ties(es[i], es[j]) ==> exists|x: int, y: int|
            0 <= x < y < listing.len() && made_from(es[i], listing[x]) && made_from(es[j], listing[y])
}

/// Levels of a scan left below `depth`.
pub open spec fn levels_left(depth: int, max_depth: int) -> nat {
    if depth < max_depth {
        (max_depth - depth) as nat
    } else {
        0
    }
}

/// A listing with a shown item whose path is not UTF-8.
pub open spec fn bad_listing(l: Seq<RawEntry>) -> bool {
    exists|j: int| 0 <= j < l.len() && shown(l[j]) && l[j].path is None
}

/// Every read that `read` can make succeeds, with a UTF-8 path for each
/// shown item.
pub open spec fn reads_clean<F: Fn(&str) -> Result<Vec<RawEntry>, FsError>>(read: F) -> bool {
    forall|p: &str, res: Result<Vec<RawEntry>, FsError>|
        #[trigger] read.ensures((p,), res) ==> (res matches Ok(l) && !bad_listing(l@))
}

/// `es` lists a listing that `read` returned for the directory at `p`, with
/// entries that tie in the listing's order.
pub open spec fn read_gave<F: Fn(&str) -> Result<Vec<RawEntry>, FsError>>(
    read: F,
    p: Seq<char>,
    es: Seq<FileEntry>,
) -> bool {
    exists|q: &str, l: Vec<RawEntry>|
        q@ == p && #[trigger] read.ensures((q,), Ok(l)) && lists(es, l@) && ties_in_listing_order(
            es,
            l@,
        )
}

/// Each entry is as a scan through `read` at `depth` with limit `max_depth`
/// makes it: shown, classified, and with children that list the directory's
/// own listing below the limit, an empty placeholder at it, and none for a
/// file.
pub open spec fn nodes_ok<F: Fn(&str) -> Result<Vec<RawEntry>, FsError>>(
    read: F,
    es: Seq<FileEntry>,
    depth: int,
    max_depth: int,
) -> bool
    decreases levels_left(depth, max_depth),
{
    forall|k: int| 0 <= k < es.len() ==> node_ok(read, #[trigger] es[k], depth, max_depth)
}

/// One entry is as a scan through `read` at `depth` with limit `max_depth`
/// makes it.
pub open spec fn node_ok<F: Fn(&str) -> Result<Vec<RawEntry>, FsError>>(
    read: F,
    e: FileEntry,
    depth: int,
    max_depth: int,
) -> bool
    decreases levels_left(depth, max_depth), 0nat,
{
    &&& !is_hidden(e.name@)
    &&& e.is_markdown == (!e.is_dir && is_markdown_path(e.path@))
    &&& if !e.is_dir {
        e.children is None
    } else if depth >= max_depth {
        e.children is Some && e.children->0@.len() == 0
    } else {
        &&& e.children is Some
        &&& sorted_entries(e.children->0@)
        &&& read_gave(read, e.path@, e.children->0@)
        &&& nodes_ok(read, e.children->0@, depth + 1, max_depth)
    }
}

/// What a scan of the directory at `path` through `read`, at `depth` with
/// limit `max_depth`, returns. It succeeds whenever every read does with
/// UTF-8 paths. On success the entries are sorted, each is as `node_ok`
/// says, and they list a listing that `read` returned for `path`. On failure
/// the error is one that a read returned, or `InvalidPath` where a listing
/// that a read returned has a shown item whose path is not UTF-8.
pub open spec fn scan_outcome<F: Fn(&str) -> Result<Vec<RawEntry>, FsError>>(
    read: F,
    path: Seq<char>,
    depth: int,
    max_depth: int,
    r: Result<Vec<FileEntry>, FsError>,
) -> bool {
    &&& reads_clean(read) ==> r is Ok
    &&& match r {
        Ok(es) => {
            &&& sorted_entries(es@)
            &&& nodes_ok(read, es@, depth, max_depth)
            &&& read_gave(read, path, es@)
        },
        Err(e) => (e == FsError::InvalidPath && exists|q: &str, l: Vec<RawEntry>|
            #[trigger] read.ensures((q,), Ok(l)) && bad_listing(l@)) || exists|q: &str|
            #[trigger] read.ensures((q,), Err(e)),
    }
}

/// Sorting keeps every entry and adds none.
proof fn lemma_same_entries(a: Seq<FileEntry>, b: Seq<FileEntry>)
    requires
        a.to_multiset() == b.to_multiset(),
    ensures
        a.len() == b.len(),
        forall|x: FileEntry| a.contains(x) <==> b.contains(x),
{
    vstd::seq_lib::to_multiset_len(a);
    vstd::seq_lib::to_multiset_len(b);
    assert forall|x: FileEntry| a.contains(x) <==> b.contains(x) by {
        vstd::seq_lib::to_multiset_contains(a, x);
        vstd::seq_lib::to_multiset_contains(b, x);
    }
}

/// What a level of a scan states of its entries holds in any order of them.
proof fn lemma_reordered_level<F: Fn(&str) -> Result<Vec<RawEntry>, FsError>>(
    read: F,
    a: Seq<FileEntry>,
    b: Seq<FileEntry>,
    listing: Seq<RawEntry>,
    depth: int,
    max_depth: int,
)
    requires
        a.to_multiset() == b.to_multiset(),
        lists(a, listing),
        nodes_ok(read, a, depth, max_depth),
    ensures
        lists(b, listing),
        nodes_ok(read, b, depth, max_depth),
{
    lemma_same_entries(a, b);
    assert forall|k: int| 0 <= k < b.len() implies node_ok(read, #[trigger] b[k], depth, max_depth) by {
        assert(a.contains(b[k]));
    }
    assert forall|k: int| 0 <= k < b.len() implies has_source(#[trigger] b[k], listing) by {
        assert(a.contains(b[k]));
        let k2 = choose|k2: int| 0 <= k2 < a.len() && a[k2] == b[k];
        assert(has_source(a[k2], listing));
    }
    assert forall|j: int| 0 <= j < listing.len() && #[trigger] shown(listing[j]) implies has_entry(
        b,
        listing[j],
    ) by {
        assert(has_entry(a, listing[j]));
        let k2 = choose|k2: int| 0 <= k2 < a.len() && made_from(a[k2], listing[j]);
        assert(b.contains(a[k2]));
        let k3 = choose|k3: int| 0 <= k3 < b.len() && b[k3] == a[k2];
        assert(made_from(b[k3], listing[j]));
    }
    assert(b.len() == count_shown(listing));
}

/// A stable sort of entries made in listing order keeps ties in that order.
proof fn lemma_ties_follow(
    out: Seq<FileEntry>,
    sorted: Seq<FileEntry>,
    listing: Seq<RawEntry>,
    src: Seq<int>,
)
    requires
        exists|idx: Seq<int>| stable_arrangement(out, sorted, idx),
        src.len() == out.len(),
        forall|k: int|
            0 <= k < out.len() ==> 0 <= #[trigger] src[k] < listing.len() && made_from(
                out[k],
                listing[src[k]],
            ),
        forall|a: int, b: int| 0 <= a < b < out.len() ==> #[trigger] src[a] < #[trigger] src[b],
    ensures
        ties_in_listing_order(sorted, listing),
{
    let idx = choose|idx: Seq<int>| stable_arrangement(out, sorted, idx);
    assert forall|a: int, b: int|
        0 <= a < b < sorted.len() && #[trigger] ties(sorted[a], sorted[b]) implies exists|x: int, y: int|
        0 <= x < y < listing.len() && made_from(sorted[a], listing[x]) && made_from(
            sorted[b],
            listing[y],
        ) by {
        assert(idx[a] < idx[b]);
        assert(0 <= idx[a] < out.len() && 0 <= idx[b] < out.len());
        assert(src[idx[a]] < src[idx[b]]);
        assert(made_from(sorted[a], listing[src[idx[a]]]));
        assert(made_from(sorted[b], listing[src[idx[b]]]));
    }
}

/// Reads the directory at `path` through `read` and makes its entries: hidden
/// items are left out, each directory is scanned below it while `depth` is
/// under `max_depth` and gets an empty placeholder at the limit, files get no
/// children, and the entries come sorted, directories first. Any failure of
/// `read`, at this level or below, ends the scan with that error; a shown
/// entry whose path is not UTF-8 ends it with `InvalidPath`.
pub fn scan_dir<F>(read: &F, path: &str, depth: u32, max_depth: u32) -> (r: Result<
    Vec<FileEntry>,
    FsError,
>) where F: Fn(&str) -> Result<Vec<RawEntry>, FsError>
    requires
        forall|p: &str| read.requires((p,)),
    ensures
        scan_outcome(*read, path@, depth as int, max_depth as int, r),
    decreases max_depth - depth,
{
    let listing = match read(path) {
        Ok(l) => l,
        Err(e) => {
            proof {
                assert(read.ensures((path,), Err::<Vec<RawEntry>, FsError>(e)));
            }
            return Err(e);
        },
    };
    let n = listing.len();
    let mut out: Vec<FileEntry> = Vec::new();
    let ghost mut src: Seq<int> = Seq::empty();
    let ghost mut back: Seq<int> = Seq::empty();
    let mut i: usize = 0;
    while i < n
        invariant
            n == listing@.len(),
            i <= n,
            forall|p: &str| read.requires((p,)),
            read.ensures((path,), Ok::<Vec<RawEntry>, FsError>(listing)),
            out@.len() == count_shown(listing@.subrange(0, i as int)),
            src.len() == out@.len(),
            back.len() == i,
            forall|k: int|
                0 <= k < out@.len() ==> node_ok(*read, #[trigger] out@[k], depth as int, max_depth as int),
            forall|k: int|
                0 <= k < out@.len() ==> 0 <= #[trigger] src[k] < i && shown(listing@[src[k]])
                    && made_from(out@[k], listing@[src[k]]),
            forall|j: int|
                0 <= j < i && shown(listing@[j]) ==> 0 <= #[trigger] back[j] < out@.len()
                    && made_from(out@[back[j]], listing@[j]),
            forall|a: int, b: int| 0 <= a < b < out@.len() ==> #[trigger] src[a] < #[trigger] src[b],
        decreases n - i,
    {
        proof {
            assert(listing@.subrange(0, i + 1).drop_last() =~= listing@.subrange(0, i as int));
            assert(listing@.subrange(0, i + 1).last() == listing@[i as int]);
        }
        let raw = &listing[i];
        if is_hidden_name(raw.name.as_str()) {
            proof {
                back = back.push(0);
            }
            i += 1;
            continue;
        }
        let p = match &raw.path {
            Some(p) => p.clone(),
            None => {
                proof {
                    assert(bad_listing(listing@));
                }
                return Err(FsError::InvalidPath);
            },
        };
        let is_dir = raw.is_dir;
        let children = if is_dir && depth < max_depth {
            match scan_dir(read, p.as_str(), depth + 1, max_depth) {
                Ok(c) => Some(c),
                Err(e) => return Err(e),
            }
        } else if is_dir {
            Some(Vec::new())
        } else {
            None
        };
        let is_markdown = if is_dir {
            false
        } else {
            is_markdown_file(p.as_str())
        };
        let e = FileEntry { name: raw.name.clone(), path: p, is_dir, is_markdown, children };
        proof {
            assert(made_from(e, listing@[i as int]));
            assert(node_ok(*read, e, depth as int, max_depth as int));
            src = src.push(i as int);
            back = back.push(out@.len() as int);
        }
        out.push(e);
        i += 1;
    }
    proof {
        assert(listing@.subrange(0, n as int) =~= listing@);
        assert(out@.len() == count_shown(listing@));
        assert forall|k: int| 0 <= k < out@.len() implies has_source(#[trigger] out@[k], listing@) by {
            assert(made_from(out@[k], listing@[src[k]]));
        }
        assert forall|j: int| 0 <= j < listing@.len() && #[trigger] shown(listing@[j]) implies has_entry(
            out@,
            listing@[j],
        ) by {
            assert(made_from(out@[back[j]], listing@[j]));
        }
    }
    let sorted = sort_entries(out);
    proof {
        lemma_reordered_level(*read, out@, sorted@, listing@, depth as int, max_depth as int);
        assert(lists(sorted@, listing@));
        lemma_ties_follow(out@, sorted@, listing@, src);
        assert(ties_in_listing_order(sorted@, listing@));
        assert(read_gave(*read, path@, sorted@));
    }
    Ok(sorted)
}

} // verus!
