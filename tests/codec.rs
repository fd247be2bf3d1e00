use gcs_backend::codec::{decode, encode, parse_size};
use gcs_backend::error::Error;
use gcs_backend::path::object_key;

#[test]
fn encode_escapes_reserved_and_keeps_separator() {
    assert_eq!(encode(b"a b/c?d#e"), b"a%20b/c%3Fd%23e".to_vec());
    assert_eq!(encode(b"50%/x+y=z"), b"50%25/x%2By%3Dz".to_vec());
    assert_eq!(encode("é".as_bytes()), b"%C3%A9".to_vec());
    assert_eq!(encode(b"plain/path.txt"), b"plain/path.txt".to_vec());
}

#[test]
fn decode_inverts_encode() {
    let paths: Vec<&[u8]> = vec![b"", b"a", b"dir/sub dir/file (1).txt", b"%%/??", "ünï/cödé".as_bytes()];
    for p in paths {
        assert_eq!(decode(&encode(p)), Some(p.to_vec()));
    }
}

#[test]
fn decode_accepts_lower_case_hex_and_refuses_bad_escapes() {
    assert_eq!(decode(b"a%2fb%3a"), Some(b"a/b:".to_vec()));
    assert_eq!(decode(b"bad%2"), None);
    assert_eq!(decode(b"bad%zz"), None);
    assert_eq!(decode(b"%"), None);
}

#[test]
fn size_string_decodes_to_its_value() {
    assert_eq!(parse_size(b"12345"), Some(12345));
    assert_eq!(parse_size(b"0"), Some(0));
    assert_eq!(parse_size(b"18446744073709551615"), Some(u64::MAX));
}

#[test]
fn non_numeric_size_is_refused_not_zero() {
    assert_eq!(parse_size(b"12a45"), None);
    assert_eq!(parse_size(b""), None);
    assert_eq!(parse_size(b"-1"), None);
    assert_eq!(parse_size(b"18446744073709551616"), None);
}

#[test]
fn keys_drop_leading_separators_and_refuse_parent_segments() {
    assert_eq!(object_key(b"/dir/a b"), Ok(b"dir/a%20b".to_vec()));
    assert_eq!(object_key(b"../x"), Err(Error::InvalidPath));
    assert_eq!(object_key(b"a/../b"), Err(Error::InvalidPath));
    assert_eq!(object_key(b"a/.."), Err(Error::InvalidPath));
    assert_eq!(object_key(b"a/..b"), Ok(b"a/..b".to_vec()));
}
