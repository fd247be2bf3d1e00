use gcs_backend::backend::{after_attempt, rmd_check, Attempt, CloudStorage};
use gcs_backend::error::Error;
use gcs_backend::listing::{list_entries, ListingPage};
use gcs_backend::metadata::{item_to_metadata, metadata_from_parts, Item, ObjectMetadata};
use gcs_backend::object::Object;
use gcs_backend::request::{Method, Payload, Token};
use gcs_backend::response::{check_status, map_get_response, map_list_response, map_put_response, map_stat_response};

fn token() -> Token {
    Token { token_type: "Bearer".to_string(), access_token: "tok".to_string() }
}

fn item(name: &str, updated: &str, size: &str) -> Item {
    Item { name: name.as_bytes().to_vec(), updated: updated.to_string(), size: size.as_bytes().to_vec() }
}

fn read_all(obj: &mut Object, chunk: usize) -> Vec<u8> {
    let mut out = Vec::new();
    let mut buf = vec![0u8; chunk];
    loop {
        let n = obj.read(&mut buf[..]);
        if n == 0 {
            return out;
        }
        out.extend_from_slice(&buf[..n]);
    }
}

#[test]
fn metadata_of_a_record() {
    let m = item_to_metadata(&item("a.txt", "2019-01-01T00:00:00Z", "12345")).unwrap();
    assert_eq!(m.len(), 12345);
    assert!(m.is_file());
    assert!(!m.is_dir());
    assert!(!m.is_symlink());
    assert!(!m.is_empty());
    assert_eq!(m.modified(), Ok(1546300800000));
    assert_eq!(m.uid(), 0);
    assert_eq!(m.gid(), 0);
}

#[test]
fn metadata_decode_errors() {
    assert!(matches!(item_to_metadata(&item("a", "2019-01-01T00:00:00Z", "x1")), Err(Error::MetadataDecodeError)));
    assert!(matches!(item_to_metadata(&item("a", "yesterday", "1")), Err(Error::MetadataDecodeError)));
    let before_epoch = metadata_from_parts(b"3", Some(-5)).unwrap();
    assert_eq!(before_epoch.modified(), Err(Error::Unsupported));
    let d = ObjectMetadata::directory();
    assert!(d.is_dir());
    assert!(d.is_empty());
}

#[test]
fn status_is_classified_before_the_body() {
    let good = item("a", "2019-01-01T00:00:00Z", "1");
    assert!(matches!(map_stat_response(404, Some(good)), Err(Error::NotFound)));
    assert!(matches!(map_stat_response(404, None), Err(Error::NotFound)));
    assert!(matches!(map_stat_response(200, None), Err(Error::MetadataDecodeError)));
    assert_eq!(check_status(401), Err(Error::AuthorizationError));
    assert_eq!(check_status(403), Err(Error::AuthorizationError));
    assert_eq!(check_status(429), Err(Error::Unavailable));
    assert_eq!(check_status(503), Err(Error::Unavailable));
    assert_eq!(check_status(400), Err(Error::RequestRejected));
    assert_eq!(check_status(204), Ok(()));
    assert_eq!(map_put_response(200, Some(item("a", "2019-01-01T00:00:00Z", "42"))), Ok(42));
}

#[test]
fn put_then_get_returns_the_bytes() {
    let s = CloudStorage::new(b"bkt".to_vec());
    let put = s.put(b"dir/f", &token()).unwrap();
    let get = s.get(b"dir/f", &token()).unwrap();
    assert_eq!(put.path_and_query, b"/upload/storage/v1/b/bkt/o?uploadType=media&name=dir/f".to_vec());
    assert_eq!(get.path_and_query, b"/storage/v1/b/bkt/o/dir/f?alt=media".to_vec());
    for payload in [vec![], vec![7u8], (0..1000u32).map(|i| (i % 251) as u8).collect::<Vec<u8>>()] {
        let mut obj = match map_get_response(200, payload.clone()) {
            Ok(o) => o,
            Err(_) => panic!("a 200 response is a download"),
        };
        assert_eq!(read_all(&mut obj, 64), payload);
    }
    assert!(matches!(map_get_response(404, vec![1, 2]), Err(Error::NotFound)));
}

#[test]
fn read_copies_what_fits_and_then_signals_the_end() {
    let mut obj = Object::new(vec![1, 2, 3, 4, 5]);
    let mut buf = [0u8; 2];
    assert_eq!(obj.read(&mut buf), 2);
    assert_eq!(buf, [1, 2]);
    assert_eq!(obj.read(&mut buf), 2);
    assert_eq!(buf, [3, 4]);
    assert_eq!(obj.read(&mut buf), 1);
    assert_eq!(buf, [5, 4]);
    assert_eq!(obj.read(&mut buf), 0);
}

#[test]
fn stat_after_delete_is_not_found() {
    let s = CloudStorage::new(b"bkt".to_vec());
    let del = s.del(b"x y", &token()).unwrap();
    let stat = s.stat(b"x y", &token()).unwrap();
    assert_eq!(del.method, Method::Delete);
    assert_eq!(stat.method, Method::Get);
    assert_eq!(del.path_and_query, stat.path_and_query);
    assert_eq!(stat.path_and_query, b"/storage/v1/b/bkt/o/x%20y".to_vec());
    assert!(matches!(map_stat_response(404, None), Err(Error::NotFound)));
}

#[test]
fn requests_carry_token_and_content_type() {
    let s = CloudStorage::new(b"bkt".to_vec());
    let put = s.put(b"/a b/", &token()).unwrap();
    assert_eq!(put.method, Method::Post);
    assert_eq!(put.authorization, "Bearer tok");
    assert_eq!(put.content_type, Some("application/octet-stream".to_string()));
    assert_eq!(put.payload, Payload::Upload);
    assert_eq!(put.path_and_query, b"/upload/storage/v1/b/bkt/o?uploadType=media&name=a%20b".to_vec());
    let list = s.list(b"a/", &token()).unwrap();
    assert_eq!(list.path_and_query, b"/storage/v1/b/bkt/o?delimiter=/&prefix=a/".to_vec());
    assert_eq!(list.content_type, None);
    assert!(matches!(s.get(b"../etc", &token()), Err(Error::InvalidPath)));
}

#[test]
fn mkd_creates_a_marker_listed_as_directory() {
    let s = CloudStorage::new(b"bkt".to_vec());
    let mkd = s.mkd(b"a/b", &token()).unwrap();
    assert_eq!(mkd.path_and_query, b"/upload/storage/v1/b/bkt/o?uploadType=media&name=a/b/".to_vec());
    assert_eq!(mkd.payload, Payload::Empty);
    let page = ListingPage { items: Some(vec![item("a/", "2019-01-01T00:00:00Z", "0")]), prefixes: Some(vec![b"a/b/".to_vec()]) };
    let entries = list_entries(&page, b"a/").unwrap();
    assert_eq!(entries.len(), 1);
    assert_eq!(entries[0].path, b"a/b/".to_vec());
    assert!(entries[0].metadata.is_dir());
    assert_eq!(entries[0].metadata.len(), 0);
}

#[test]
fn listing_merges_items_and_prefixes_without_duplicates() {
    let page = ListingPage {
        items: Some(vec![
            item("d/", "2019-01-01T00:00:00Z", "0"),
            item("d/one", "2019-01-01T00:00:00Z", "10"),
            item("d/two", "2019-01-01T00:00:01Z", "20"),
        ]),
        prefixes: Some(vec![b"d/x/".to_vec(), b"d/y/".to_vec(), b"d/x/".to_vec()]),
    };
    let entries = list_entries(&page, b"d/").unwrap();
    let names: Vec<Vec<u8>> = entries.iter().map(|e| e.path.clone()).collect();
    assert_eq!(names, vec![b"d/one".to_vec(), b"d/two".to_vec(), b"d/x/".to_vec(), b"d/y/".to_vec()]);
    assert!(entries[0].metadata.is_file());
    assert_eq!(entries[1].metadata.len(), 20);
    assert!(entries[2].metadata.is_dir());
    let empty = ListingPage { items: None, prefixes: None };
    assert_eq!(list_entries(&empty, b"d/").unwrap().len(), 0);
    let bad = ListingPage { items: Some(vec![item("d/z", "2019-01-01T00:00:00Z", "oops")]), prefixes: None };
    assert!(matches!(list_entries(&bad, b"d/"), Err(Error::MetadataDecodeError)));
}

#[test]
fn directory_removal_policy() {
    let s = CloudStorage::new(b"bkt".to_vec());
    let only_marker = ListingPage { items: Some(vec![item("a/b/", "2019-01-01T00:00:00Z", "0")]), prefixes: None };
    let with_file = ListingPage { items: Some(vec![item("a/b/", "2019-01-01T00:00:00Z", "0"), item("a/b/f", "2019-01-01T00:00:00Z", "1")]), prefixes: None };
    let with_sub = ListingPage { items: None, prefixes: Some(vec![b"a/b/c/".to_vec()]) };
    let nothing = ListingPage { items: Some(vec![]), prefixes: None };
    assert_eq!(rmd_check(&only_marker, b"a/b/"), Ok(()));
    assert_eq!(rmd_check(&with_file, b"a/b/"), Err(Error::NotEmpty));
    assert_eq!(rmd_check(&with_sub, b"a/b/"), Err(Error::NotEmpty));
    assert_eq!(rmd_check(&nothing, b"a/b/"), Err(Error::NotFound));
    let list = s.rmd(b"a/b", &token()).unwrap();
    assert_eq!(list.path_and_query, b"/storage/v1/b/bkt/o?delimiter=/&prefix=a/b/".to_vec());
    let del = s.rmd_listed(b"a/b", &only_marker, &token()).unwrap();
    assert_eq!(del.method, Method::Delete);
    assert_eq!(del.path_and_query, b"/storage/v1/b/bkt/o/a/b/".to_vec());
    assert!(matches!(s.rmd_listed(b"a/b", &with_file, &token()), Err(Error::NotEmpty)));
    assert!(matches!(s.rmd(b"/", &token()), Err(Error::InvalidPath)));
}

#[test]
fn rename_copies_then_deletes() {
    let s = CloudStorage::new(b"bkt".to_vec());
    let copy = s.rename(b"a", b"b c", &token()).unwrap();
    assert_eq!(copy.method, Method::Post);
    assert_eq!(copy.path_and_query, b"/storage/v1/b/bkt/o/a/copyTo/b/bkt/o/b%20c".to_vec());
    let del = s.rename_copied(b"a", 200, &token()).unwrap();
    assert_eq!(del.method, Method::Delete);
    assert_eq!(del.path_and_query, b"/storage/v1/b/bkt/o/a".to_vec());
    assert!(matches!(s.rename_copied(b"a", 404, &token()), Err(Error::NotFound)));
    assert!(matches!(s.rename(b"a", b"../b", &token()), Err(Error::InvalidPath)));
}

#[test]
fn refused_token_is_retried_once() {
    assert!(matches!(after_attempt::<u64>(false, Err(Error::AuthorizationError)), Attempt::Retry));
    assert!(matches!(after_attempt::<u64>(true, Err(Error::AuthorizationError)), Attempt::Finish(Err(Error::AuthorizationError))));
    assert!(matches!(after_attempt::<u64>(false, Err(Error::Unavailable)), Attempt::Finish(Err(Error::Unavailable))));
    assert!(matches!(after_attempt::<u64>(false, Ok(3)), Attempt::Finish(Ok(3))));
}

#[test]
fn paths_that_are_not_utf8_are_refused() {
    let s = CloudStorage::new(b"bkt".to_vec());
    assert!(matches!(s.stat(&[0x66, 0xFF], &token()), Err(Error::InvalidPath)));
    assert!(matches!(s.put(&[0xC3], &token()), Err(Error::InvalidPath)));
    assert!(matches!(s.list(&[0xED, 0xA0, 0x80], &token()), Err(Error::InvalidPath)));
    assert!(s.get("dír/ü".as_bytes(), &token()).is_ok());
}

#[test]
fn uploads_to_the_bucket_root_are_refused() {
    let s = CloudStorage::new(b"bkt".to_vec());
    assert!(matches!(s.put(b"", &token()), Err(Error::InvalidPath)));
    assert!(matches!(s.put(b"/", &token()), Err(Error::InvalidPath)));
    assert!(matches!(s.mkd(b"//", &token()), Err(Error::InvalidPath)));
}

#[test]
fn listing_response_is_mapped_as_a_whole() {
    let page = || ListingPage {
        items: Some(vec![item("a/", "2019-01-01T00:00:00Z", "0"), item("a/f", "2019-01-01T00:00:00Z", "5")]),
        prefixes: Some(vec![b"a/b/".to_vec()]),
    };
    assert!(matches!(map_list_response(404, Some(page()), b"/a/"), Err(Error::NotFound)));
    assert!(matches!(map_list_response(503, Some(page()), b"/a/"), Err(Error::Unavailable)));
    assert!(matches!(map_list_response(200, None, b"/a/"), Err(Error::MetadataDecodeError)));
    let bad = ListingPage { items: Some(vec![item("a/g", "2019-01-01T00:00:00Z", "n/a")]), prefixes: None };
    assert!(matches!(map_list_response(200, Some(bad), b"a/"), Err(Error::MetadataDecodeError)));
    let entries = map_list_response(200, Some(page()), b"/a/").unwrap();
    let names: Vec<Vec<u8>> = entries.iter().map(|e| e.path.clone()).collect();
    assert_eq!(names, vec![b"a/f".to_vec(), b"a/b/".to_vec()]);
    assert_eq!(entries[0].metadata.len(), 5);
    assert!(entries[1].metadata.is_dir());
}

#[test]
fn read_of_one_byte_then_end() {
    let mut obj = match map_get_response(200, vec![0x41]) {
        Ok(o) => o,
        Err(_) => panic!("a 200 response is a download"),
    };
    let mut buf = [0u8; 8];
    assert_eq!(obj.read(&mut buf), 1);
    assert_eq!(buf[0], 0x41);
    assert_eq!(obj.read(&mut buf), 0);
    let mut empty = Object::new(vec![]);
    assert_eq!(empty.read(&mut buf), 0);
}
