//! Properties that tie several operations together, proved over a model of
//! the store: a map from object names to their bytes.
use vstd::prelude::*;
use crate::codec::{decoded, encoded, lemma_decode_encode, SLASH};
use crate::error::Error;
use crate::listing::{
    dir_entry,
    EntryView,
    item_entries,
    item_entry,
    item_names,
    is_marker,
    listing,
    prefix_entries,
};
use crate::metadata::Item;
use crate::path::{escapes_root, key_of, marker_name, object_name, stripped, trimmed, upload_name};
use crate::response::record_outcome;

verus! {

/// The status with which the store answers a request for one object: 200
/// when it holds the object, 404 when not.
pub open spec fn served_status(store: Map<Seq<u8>, Seq<u8>>, name: Seq<u8>) -> u16 {
    if store.contains_key(name) {
        200
    } else {
        404
    }
}

/// No name occurs twice.
pub open spec fn names_distinct(s: Seq<Seq<u8>>) -> bool {
    forall|a: int, b: int| 0 <= a < b < s.len() ==> s[a] != s[b]
}

/// No two entries share a name.
pub open spec fn entry_names_distinct(v: Seq<EntryView>) -> bool {
    forall|a: int, b: int| 0 <= a < b < v.len() ==> v[a].0 != v[b].0
}

proof fn lemma_stripped_last(p: Seq<u8>)
    ensures
        stripped(p).len() > 0 ==> stripped(p).last() == p.last(),
        p.len() > 0 && p.last() != SLASH ==> stripped(p).len() > 0,
    decreases p.len(),
{
    if p.len() > 0 && p[0] == SLASH {
        lemma_stripped_last(p.drop_first());
        if p.len() > 1 {
            assert(p.drop_first().last() == p.last());
        }
    }
}

/// An upload to a path that does not end in the separator writes the very
/// object that a download of the path reads: the store, holding the bytes
/// under the uploaded name, serves them under the downloaded one.
pub proof fn lemma_get_after_put(store: Map<Seq<u8>, Seq<u8>>, path: Seq<u8>, bytes: Seq<u8>)
    requires
        !escapes_root(path),
        !is_marker(path),
    ensures
        upload_name(path) == object_name(path),
        decoded(encoded(upload_name(path))) == Some(object_name(path)),
        decoded(key_of(path)) == Some(object_name(path)),
        served_status(store.insert(upload_name(path), bytes), object_name(path)) == 200,
        store.insert(upload_name(path), bytes)[object_name(path)] == bytes,
{
    lemma_stripped_last(path);
    let s = stripped(path);
    if s.len() > 0 {
        assert(trimmed(s) == s);
    }
    lemma_decode_encode(object_name(path));
}

/// A stat after a delete of the same path addresses the deleted object, so
/// the store answers 404, which is `NotFound` whatever the body holds.
pub proof fn lemma_stat_after_delete(
    store: Map<Seq<u8>, Seq<u8>>,
    path: Seq<u8>,
    body: Option<Item>,
)
    requires
        !escapes_root(path),
    ensures
        decoded(key_of(path)) == Some(object_name(path)),
        served_status(store.remove(object_name(path)), object_name(path)) == 404,
        record_outcome(served_status(store.remove(object_name(path)), object_name(path)), body)
            == Err::<(u64, Option<u64>), Error>(Error::NotFound),
{
    lemma_decode_encode(object_name(path));
}

/// A 404 is `NotFound` whatever the body; a success whose body is no record
/// is a decode error.
pub proof fn lemma_status_before_body(body: Option<Item>)
    ensures
        record_outcome(404, body) == Err::<(u64, Option<u64>), Error>(Error::NotFound),
        record_outcome(200, None) == Err::<(u64, Option<u64>), Error>(Error::MetadataDecodeError),
{
}

proof fn lemma_item_entries_step(items: Seq<Item>, dir: Seq<u8>)
    requires
        items.len() > 0,
        item_entries(items, dir) is Some,
    ensures
        item_entries(items.drop_last(), dir) is Some,
        items.last().name@ == dir ==> item_entries(items, dir)->0 == item_entries(
            items.drop_last(),
            dir,
        )->0,
        items.last().name@ != dir ==> item_entries(items, dir)->0 == item_entries(
            items.drop_last(),
            dir,
        )->0.push(item_entry(items.last())->0),
        item_entry(items.last()) matches Some(e) ==> e.0 == items.last().name@,
{
}

#[verifier::rlimit(40)]
proof fn lemma_item_entries_props(items: Seq<Item>, dir: Seq<u8>)
    requires
        item_entries(items, dir) is Some,
    ensures
        forall|i: int|
            0 <= i < items.len() && items[i].name@ != dir ==> exists|k: int|
                0 <= k < item_entries(items, dir)->0.len() && item_entries(items, dir)->0[k].0
                    == #[trigger] items[i].name@,
        forall|k: int|
            0 <= k < item_entries(items, dir)->0.len() ==> exists|i: int|
                0 <= i < items.len() && #[trigger] item_entries(items, dir)->0[k].0
                    == items[i].name@,
        names_distinct(item_names(items)) ==> entry_names_distinct(item_entries(items, dir)->0),
    decreases items.len(),
{
    if items.len() > 0 {
        let pre = items.drop_last();
        let last = items.last();
        let n = items.len() - 1;
        lemma_item_entries_step(items, dir);
        lemma_item_entries_props(pre, dir);
        let v0 = item_entries(pre, dir)->0;
        let v = item_entries(items, dir)->0;
        assert forall|i: int| 0 <= i < items.len() && items[i].name@ != dir implies exists|k: int|
            0 <= k < v.len() && v[k].0 == #[trigger] items[i].name@ by {
            if i < n {
                assert(pre[i] == items[i]);
                let k = choose|k: int| 0 <= k < v0.len() && v0[k].0 == #[trigger] pre[i].name@;
                assert(v[k] == v0[k]);
            } else {
                assert(v[v0.len() as int].0 == last.name@);
            }
        }
        assert forall|k: int| 0 <= k < v.len() implies exists|i: int|
            0 <= i < items.len() && #[trigger] v[k].0 == items[i].name@ by {
            if k < v0.len() {
                assert(v[k] == v0[k]);
                let i = choose|i: int| 0 <= i < pre.len() && #[trigger] v0[k].0 == pre[i].name@;
                assert(pre[i] == items[i]);
            } else {
                assert(v[k].0 == items[n].name@);
            }
        }
        if names_distinct(item_names(items)) {
            assert forall|a: int, b: int| 0 <= a < b < pre.len() implies item_names(pre)[a]
                != item_names(pre)[b] by {
                assert(item_names(items)[a] == item_names(pre)[a]);
                assert(item_names(items)[b] == item_names(pre)[b]);
            }
            assert forall|a: int, b: int| 0 <= a < b < v.len() implies v[a].0 != v[b].0 by {
                if b < v0.len() {
                    assert(v[a] == v0[a] && v[b] == v0[b]);
                } else {
                    assert(v[a] == v0[a]);
                    let i = choose|i: int| 0 <= i < pre.len() && #[trigger] v0[a].0 == pre[i].name@;
                    assert(item_names(items)[i] == pre[i].name@);
                    assert(item_names(items)[n] == last.name@);
                }
            }
        }
    }
}

proof fn lemma_prefix_entries_props(ps: Seq<Seq<u8>>, taken: Seq<Seq<u8>>)
    ensures
        forall|j: int|
            0 <= j < ps.len() && !taken.contains(ps[j]) ==> exists|k: int|
                0 <= k < prefix_entries(ps, taken).len() && prefix_entries(ps, taken)[k]
                    == dir_entry(#[trigger] ps[j]),
        forall|k: int|
            0 <= k < prefix_entries(ps, taken).len() ==> !taken.contains(
                #[trigger] prefix_entries(ps, taken)[k].0,
            ) && ps.contains(prefix_entries(ps, taken)[k].0),
        entry_names_distinct(prefix_entries(ps, taken)),
    decreases ps.len(),
{
    if ps.len() > 0 {
        let pre = ps.drop_last();
        let p = ps.last();
        let n = ps.len() - 1;
        lemma_prefix_entries_props(pre, taken);
        let w0 = prefix_entries(pre, taken);
        let w = prefix_entries(ps, taken);
        assert forall|j: int| 0 <= j < ps.len() && !taken.contains(ps[j]) implies exists|k: int|
            0 <= k < w.len() && w[k] == dir_entry(#[trigger] ps[j]) by {
            if j < n {
                assert(pre[j] == ps[j]);
                let k = choose|k: int| 0 <= k < w0.len() && w0[k] == dir_entry(#[trigger] pre[j]);
                assert(w[k] == w0[k]);
            } else if pre.contains(p) {
                let j2 = choose|j2: int| 0 <= j2 < pre.len() && pre[j2] == p;
                assert(pre[j2] == ps[j2]);
                let k = choose|k: int| 0 <= k < w0.len() && w0[k] == dir_entry(#[trigger] pre[j2]);
                assert(w[k] == w0[k]);
            } else {
                assert(w[w0.len() as int] == dir_entry(p));
            }
        }
        assert forall|k: int| 0 <= k < w.len() implies !taken.contains(#[trigger] w[k].0)
            && ps.contains(w[k].0) by {
            if k < w0.len() {
                assert(w[k] == w0[k]);
                let j = choose|j: int| 0 <= j < pre.len() && pre[j] == w0[k].0;
                assert(ps[j] == pre[j]);
            } else {
                assert(ps[n] == p);
            }
        }
        assert forall|a: int, b: int| 0 <= a < b < w.len() implies w[a].0 != w[b].0 by {
            if b < w0.len() {
                assert(w[a] == w0[a] && w[b] == w0[b]);
            } else {
                assert(w[a] == w0[a]);
                assert(pre.contains(w0[a].0));
            }
        }
    }
}

/// A listing shows every object record (but the listed directory's own
/// marker) and one directory entry for each prefix that no record names;
/// and when the records' names are distinct, no name is shown twice.
pub proof fn lemma_listing_complete(items: Seq<Item>, prefixes: Seq<Seq<u8>>, dir: Seq<u8>)
    requires
        listing(items, prefixes, dir) is Some,
    ensures
        forall|i: int|
            0 <= i < items.len() && items[i].name@ != dir ==> exists|k: int|
                0 <= k < listing(items, prefixes, dir)->0.len() && listing(
                    items,
                    prefixes,
                    dir,
                )->0[k].0 == #[trigger] items[i].name@,
        forall|j: int|
            0 <= j < prefixes.len() && !item_names(items).contains(prefixes[j]) ==> exists|k: int|
                0 <= k < listing(items, prefixes, dir)->0.len() && listing(
                    items,
                    prefixes,
                    dir,
                )->0[k] == dir_entry(#[trigger] prefixes[j]),
        names_distinct(item_names(items)) ==> entry_names_distinct(
            listing(items, prefixes, dir)->0,
        ),
{
    let v = item_entries(items, dir)->0;
    let taken = item_names(items);
    let w = prefix_entries(prefixes, taken);
    let all = listing(items, prefixes, dir)->0;
    lemma_item_entries_props(items, dir);
    lemma_prefix_entries_props(prefixes, taken);
    assert(all == v + w);
    assert forall|i: int| 0 <= i < items.len() && items[i].name@ != dir implies exists|k: int|
        0 <= k < all.len() && all[k].0 == #[trigger] items[i].name@ by {
        let k = choose|k: int| 0 <= k < v.len() && v[k].0 == #[trigger] items[i].name@;
        assert(all[k] == v[k]);
    }
    assert forall|j: int| 0 <= j < prefixes.len() && !taken.contains(prefixes[j]) implies exists|
        k: int,
    | 0 <= k < all.len() && all[k] == dir_entry(#[trigger] prefixes[j]) by {
        let k = choose|k: int| 0 <= k < w.len() && w[k] == dir_entry(#[trigger] prefixes[j]);
        assert(all[v.len() + k] == w[k]);
    }
    if names_distinct(taken) {
        assert forall|a: int, b: int| 0 <= a < b < all.len() implies all[a].0 != all[b].0 by {
            if b < v.len() {
                assert(all[a] == v[a] && all[b] == v[b]);
            } else if a >= v.len() {
                assert(all[a] == w[a - v.len()] && all[b] == w[b - v.len()]);
            } else {
                assert(all[a] == v[a] && all[b] == w[b - v.len()]);
                let i = choose|i: int| 0 <= i < items.len() && #[trigger] v[a].0 == items[i].name@;
                assert(taken[i] == items[i].name@);
                assert(!taken.contains(w[b - v.len()].0));
            }
        }
    }
}

/// A directory created at a path is listed under its parent: its marker is
/// named by the path with one separator after it, and a listing whose
/// prefixes hold that name shows it as a directory.
pub proof fn lemma_mkd_then_list(
    path: Seq<u8>,
    items: Seq<Item>,
    prefixes: Seq<Seq<u8>>,
    dir: Seq<u8>,
)
    requires
        !escapes_root(path),
        listing(items, prefixes, dir) is Some,
        prefixes.contains(marker_name(path)),
        marker_name(path) != dir,
    ensures
        is_marker(marker_name(path)),
        exists|k: int|
            0 <= k < listing(items, prefixes, dir)->0.len() && #[trigger] listing(
                items,
                prefixes,
                dir,
            )->0[k].0 == marker_name(path) && !listing(items, prefixes, dir)->0[k].1,
{
    let m = marker_name(path);
    let all = listing(items, prefixes, dir)->0;
    lemma_listing_complete(items, prefixes, dir);
    let j = choose|j: int| 0 <= j < prefixes.len() && prefixes[j] == m;
    let v = item_entries(items, dir)->0;
    assert(all == v + prefix_entries(prefixes, item_names(items)));
    if item_names(items).contains(m) {
        let i = choose|i: int| 0 <= i < items.len() && item_names(items)[i] == m;
        assert(items[i].name@ == m);
        lemma_marker_item_is_dir(items, dir, i);
        let k = choose|k: int| 0 <= k < v.len() && #[trigger] v[k] == dir_entry(items[i].name@);
        assert(all[k] == v[k]);
        assert(0 <= k < all.len() && all[k].0 == m && !all[k].1);
    } else {
        assert(!item_names(items).contains(prefixes[j]));
        let k = choose|k: int| 0 <= k < all.len() && all[k] == dir_entry(#[trigger] prefixes[j]);
        assert(0 <= k < all.len() && all[k].0 == m && !all[k].1);
    }
}

proof fn lemma_marker_item_is_dir(items: Seq<Item>, dir: Seq<u8>, i: int)
    requires
        item_entries(items, dir) is Some,
        0 <= i < items.len(),
        is_marker(items[i].name@),
        items[i].name@ != dir,
    ensures
        exists|k: int|
            0 <= k < item_entries(items, dir)->0.len() && #[trigger] item_entries(items, dir)->0[k]
                == dir_entry(items[i].name@),
    decreases items.len(),
{
    let pre = items.drop_last();
    let v = item_entries(items, dir)->0;
    if i < items.len() - 1 {
        assert(pre[i] == items[i]);
        lemma_marker_item_is_dir(pre, dir, i);
        let v0 = item_entries(pre, dir)->0;
        let k = choose|k: int| 0 <= k < v0.len() && #[trigger] v0[k] == dir_entry(pre[i].name@);
        assert(v[k] == v0[k]);
    } else {
        let v0 = item_entries(pre, dir)->0;
        assert(item_entry(items[i]) == Some(dir_entry(items[i].name@)));
        assert(v[v0.len() as int] == dir_entry(items[i].name@));
    }
}

} // verus!
