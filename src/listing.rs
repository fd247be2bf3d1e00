//! Directory listings: one level of the store's delimiter-based listing,
//! shown as files and directories.
use vstd::prelude::*;
use crate::codec::SLASH;
use crate::error::Error;
use crate::metadata::{item_metadata, item_to_metadata, Item, ObjectMetadata};

verus! {

/// One page of a delimiter-based listing: the objects directly under the
/// prefix, and the prefixes one level further down.
pub struct ListingPage {
    pub items: Option<Vec<Item>>,
    pub prefixes: Option<Vec<Vec<u8>>>,
}

/// A listing entry: a path and its metadata.
pub struct Fileinfo {
    pub path: Vec<u8>,
    pub metadata: ObjectMetadata,
}

/// What a listing entry shows: name, whether it is a file, size, time.
pub type EntryView = (Seq<u8>, bool, u64, Option<u64>);

pub open spec fn entry_view(f: Fileinfo) -> EntryView {
    (f.path@, f.metadata.is_file_spec(), f.metadata.size_spec(), f.metadata.modified_spec())
}

pub open spec fn entries_view(v: Seq<Fileinfo>) -> Seq<EntryView> {
    v.map_values(|f: Fileinfo| entry_view(f))
}

/// A name that ends in the separator: a directory marker.
pub open spec fn is_marker(name: Seq<u8>) -> bool {
    name.len() > 0 && name.last() == SLASH
}

/// The entry of a directory.
pub open spec fn dir_entry(name: Seq<u8>) -> EntryView {
    (name, false, 0, None)
}

/// The entry of an object record: a directory for a marker, else a file
/// with the record's size and time (`None` when those do not decode).
pub open spec fn item_entry(item: Item) -> Option<EntryView> {
    if is_marker(item.name@) {
        Some(dir_entry(item.name@))
    } else {
        match item_metadata(&item) {
            Some(m) => Some((item.name@, true, m.0, m.1)),
            None => None,
        }
    }
}

/// The entries of the object records, in order, leaving out the listed
/// directory's own marker; `None` when a record does not decode.
pub open spec fn item_entries(items: Seq<Item>, dir: Seq<u8>) -> Option<Seq<EntryView>>
    decreases items.len(),
{
    if items.len() == 0 {
        Some(Seq::empty())
    } else {
        let last = items.last();
        match item_entries(items.drop_last(), dir) {
            None => None,
            Some(v) => if last.name@ == dir {
                Some(v)
            } else {
                match item_entry(last) {
                    Some(e) => Some(v.push(e)),
                    None => None,
                }
            },
        }
    }
}

pub open spec fn item_names(items: Seq<Item>) -> Seq<Seq<u8>> {
    items.map_values(|it: Item| it.name@)
}

/// One directory entry per prefix, in order, leaving out those already
/// named in `taken` and those seen before.
pub open spec fn prefix_entries(prefixes: Seq<Seq<u8>>, taken: Seq<Seq<u8>>) -> Seq<EntryView>
    decreases prefixes.len(),
{
    if prefixes.len() == 0 {
        Seq::empty()
    } else {
        let p = prefixes.last();
        let rest = prefix_entries(prefixes.drop_last(), taken);
        if taken.contains(p) || prefixes.drop_last().contains(p) {
            rest
        } else {
            rest.push(dir_entry(p))
        }
    }
}

/// The entries of a listing of `dir`: the records' entries, then the
/// prefixes' directory entries.
pub open spec fn listing(items: Seq<Item>, prefixes: Seq<Seq<u8>>, dir: Seq<u8>) -> Option<
    Seq<EntryView>,
> {
    match item_entries(items, dir) {
        Some(v) => Some(v + prefix_entries(prefixes, item_names(items))),
        None => None,
    }
}

pub open spec fn page_items(page: &ListingPage) -> Seq<Item> {
    match page.items {
        Some(v) => v@,
        None => Seq::empty(),
    }
}

pub open spec fn page_prefixes(page: &ListingPage) -> Seq<Seq<u8>> {
    match page.prefixes {
        Some(v) => v@.map_values(|p: Vec<u8>| p@),
        None => Seq::empty(),
    }
}

/// Whether two byte strings are equal.
pub fn bytes_eq(a: &[u8], b: &[u8]) -> (r: bool)
    ensures
        r == (a@ == b@),
{
    if a.len() != b.len() {
        return false;
    }
    let mut i: usize = 0;
    while i < a.len()
        invariant
            a@.len() == b@.len(),
            i <= a@.len(),
            forall|j: int| 0 <= j < i ==> a@[j] == b@[j],
        decreases a@.len() - i,
    {
        if a[i] != b[i] {
            return false;
        }
        i = i + 1;
    }
    assert(a@ =~= b@);
    true
}

fn names_contain(items: &Vec<Item>, name: &[u8]) -> (r: bool)
    ensures
        r == item_names(items@).contains(name@),
{
    let mut i: usize = 0;
    while i < items.len()
        invariant
            i <= items@.len(),
            forall|j: int| 0 <= j < i ==> items@[j].name@ != name@,
        decreases items@.len() - i,
    {
        if bytes_eq(items[i].name.as_slice(), name) {
            assert(item_names(items@)[i as int] == name@);
            return true;
        }
        i = i + 1;
    }
    assert(!item_names(items@).contains(name@));
    false
}

fn prefixes_contain(ps: &Vec<Vec<u8>>, upto: usize, name: &[u8]) -> (r: bool)
    requires
        upto <= ps@.len(),
    ensures
        r == ps@.take(upto as int).map_values(|p: Vec<u8>| p@).contains(name@),
{
    let ghost seen = ps@.take(upto as int).map_values(|p: Vec<u8>| p@);
    let mut i: usize = 0;
    while i < upto
        invariant
            upto <= ps@.len(),
            i <= upto,
            seen == ps@.take(upto as int).map_values(|p: Vec<u8>| p@),
            forall|j: int| 0 <= j < i ==> ps@[j]@ != name@,
        decreases upto - i,
    {
        if bytes_eq(ps[i].as_slice(), name) {
            assert(seen[i as int] == name@);
            return true;
        }
        i = i + 1;
    }
    assert(!seen.contains(name@));
    false
}

proof fn lemma_item_entries_stay_none(items: Seq<Item>, dir: Seq<u8>, i: int)
    requires
        0 <= i <= items.len(),
        item_entries(items.take(i), dir) is None,
    ensures
        item_entries(items, dir) is None,
    decreases items.len() - i,
{
    if i < items.len() {
        assert(items.take(i + 1).drop_last() =~= items.take(i));
        lemma_item_entries_stay_none(items, dir, i + 1);
    } else {
        assert(items.take(i) =~= items);
    }
}

/// The entries of one listing page of `dir`. Object records become files
/// (markers become directories, and the directory's own marker is left
/// out); each prefix not already listed becomes a directory of size 0. A
/// record whose size or time does not decode fails the whole listing.
pub fn list_entries(page: &ListingPage, dir: &[u8]) -> (r: Result<Vec<Fileinfo>, Error>)
    ensures
        match listing(page_items(page), page_prefixes(page), dir@) {
            None => r matches Err(e) && e == Error::MetadataDecodeError,
            Some(v) => r matches Ok(w) && entries_view(w@) == v,
        },
{
    let empty_items: Vec<Item> = Vec::new();
    let items: &Vec<Item> = match &page.items {
        Some(v) => v,
        None => &empty_items,
    };
    assert(items@ == page_items(page));
    let mut out: Vec<Fileinfo> = Vec::new();
    let mut i: usize = 0;
    while i < items.len()
        invariant
            i <= items@.len(),
            items@ == page_items(page),
            item_entries(items@.take(i as int), dir@) == Some(entries_view(out@)),
        decreases items@.len() - i,
    {
        let item = &items[i];
        let ghost before = out@;
        assert(items@.take(i + 1).drop_last() =~= items@.take(i as int));
        assert(items@.take(i + 1).last() == items@[i as int]);
        if bytes_eq(item.name.as_slice(), dir) {
        } else if item.name.len() > 0 && item.name[item.name.len() - 1] == SLASH {
            let path = vstd::slice::slice_to_vec(item.name.as_slice());
            out.push(Fileinfo { path, metadata: ObjectMetadata::directory() });
            assert(entries_view(out@) =~= entries_view(before).push(dir_entry(item.name@)));
        } else {
            match item_to_metadata(item) {
                Ok(m) => {
                    let path = vstd::slice::slice_to_vec(item.name.as_slice());
                    out.push(Fileinfo { path, metadata: m });
                    assert(entries_view(out@) =~= entries_view(before).push(
                        item_entry(items@[i as int])->0,
                    ));
                },
                Err(_) => {
                    proof {
                        assert(item_entry(items@[i as int]) is None);
                        assert(item_entries(items@.take(i + 1), dir@) is None);
                        lemma_item_entries_stay_none(items@, dir@, i + 1);
                    }
                    return Err(Error::MetadataDecodeError);
                },
            }
        }
        i = i + 1;
    }
    assert(items@.take(items@.len() as int) =~= items@);
    let ghost from_items = entries_view(out@);
    let empty_prefixes: Vec<Vec<u8>> = Vec::new();
    let ps: &Vec<Vec<u8>> = match &page.prefixes {
        Some(v) => v,
        None => &empty_prefixes,
    };
    let ghost pv = ps@.map_values(|p: Vec<u8>| p@);
    assert(pv == page_prefixes(page));
    let mut j: usize = 0;
    assert(pv.take(0) =~= Seq::<Seq<u8>>::empty());
    assert(from_items + Seq::<EntryView>::empty() =~= from_items);
    while j < ps.len()
        invariant
            j <= ps@.len(),
            pv == ps@.map_values(|p: Vec<u8>| p@),
            pv == page_prefixes(page),
            items@ == page_items(page),
            item_entries(items@, dir@) == Some(from_items),
            entries_view(out@) == from_items + prefix_entries(pv.take(j as int), item_names(items@)),
        decreases ps@.len() - j,
    {
        let p = &ps[j];
        let ghost before = out@;
        assert(pv.take(j + 1).drop_last() =~= pv.take(j as int));
        assert(pv.take(j + 1).last() == p@);
        assert(ps@.take(j as int).map_values(|p: Vec<u8>| p@) =~= pv.take(j as int));
        if names_contain(items, p.as_slice()) || prefixes_contain(ps, j, p.as_slice()) {
        } else {
            let path = vstd::slice::slice_to_vec(p.as_slice());
            out.push(Fileinfo { path, metadata: ObjectMetadata::directory() });
            assert(entries_view(out@) =~= entries_view(before).push(dir_entry(p@)));
        }
        j = j + 1;
    }
    assert(pv.take(pv.len() as int) =~= pv);
    Ok(out)
}

} // verus!
