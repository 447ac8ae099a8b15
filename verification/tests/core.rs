//! Fingerprints, paths and candidate selection on concrete values.

use sha2::Digest;
use thumbcache::fingerprint::{fingerprint, hex_bytes};
use thumbcache::paths::{get_cached_path, get_config_path, get_user_data_dir, join_path};
use thumbcache::scan::{extension_of, file_name_of, filter_candidates, is_candidate, keep_entry};

#[test]
fn fingerprint_is_deterministic() {
    let a = fingerprint(b"/data/work/logo.psd", Some(1_700_000_000));
    let b = fingerprint(b"/data/work/logo.psd", Some(1_700_000_000));
    assert_eq!(a, b);
    assert_eq!(a.len(), 64);
}

#[test]
fn fingerprint_changes_with_mtime() {
    let a = fingerprint(b"/data/work/logo.psd", Some(1_700_000_000));
    let b = fingerprint(b"/data/work/logo.psd", Some(1_700_000_001));
    assert_ne!(a, b);
}

#[test]
fn fingerprint_changes_with_path() {
    let a = fingerprint(b"/data/work/logo.psd", Some(5));
    let b = fingerprint(b"/data/work/logo2.psd", Some(5));
    assert_ne!(a, b);
}

#[test]
fn fingerprint_matches_independent_digest() {
    let path = b"/data/client/brief.pdf";
    let mtime: u64 = 1_699_999_123;
    let mut hasher = sha2::Sha256::new();
    hasher.update(path);
    hasher.update(mtime.to_le_bytes());
    let expected: String = hasher.finalize().iter().map(|b| format!("{:02x}", b)).collect();
    let got = String::from_utf8(fingerprint(path, Some(mtime))).unwrap();
    assert_eq!(got, expected);
}

#[test]
fn fingerprint_without_mtime_hashes_path_alone() {
    let path = b"/data/client/brief.pdf";
    let mut hasher = sha2::Sha256::new();
    hasher.update(path);
    let expected: String = hasher.finalize().iter().map(|b| format!("{:02x}", b)).collect();
    let got = String::from_utf8(fingerprint(path, None)).unwrap();
    assert_eq!(got, expected);
}

#[test]
fn hex_renders_bytes() {
    assert_eq!(hex_bytes(&[0xbe, 0xef, 0x00, 0x1a]), b"beef001a".to_vec());
    assert_eq!(hex_bytes(&[]), Vec::<u8>::new());
}

#[test]
fn file_name_is_last_component() {
    assert_eq!(file_name_of(b"/a/b/c.txt"), b"c.txt".to_vec());
    assert_eq!(file_name_of(b"plain"), b"plain".to_vec());
    assert_eq!(file_name_of(b"/a/b/"), Vec::<u8>::new());
}

#[test]
fn extension_follows_platform_rule() {
    assert_eq!(extension_of(b"/a/photo.JPG"), Some(b"JPG".to_vec()));
    assert_eq!(extension_of(b"/a/archive.tar.gz"), Some(b"gz".to_vec()));
    assert_eq!(extension_of(b"/a/.hidden"), None);
    assert_eq!(extension_of(b"/a/.hidden.png"), Some(b"png".to_vec()));
    assert_eq!(extension_of(b"/a/noext"), None);
    assert_eq!(extension_of(b"/a/trailing."), Some(b"".to_vec()));
}

#[test]
fn candidates_follow_the_allow_list() {
    assert!(is_candidate(b"/r/a.psd"));
    assert!(is_candidate(b"/r/b.JPeG"));
    assert!(is_candidate(b"/r/c.cdr"));
    assert!(is_candidate(b"/r/d.docx"));
    assert!(!is_candidate(b"/r/e.txt"));
    assert!(!is_candidate(b"/r/noext"));
    assert!(!is_candidate(b"/r/.png"));
}

#[test]
fn traversal_skips_hidden_and_excluded() {
    assert!(keep_entry(b"work"));
    assert!(!keep_entry(b".git"));
    assert!(!keep_entry(b"node_modules"));
    assert!(keep_entry(b""));
}

#[test]
fn filtering_keeps_candidates_in_order() {
    let paths: Vec<Vec<u8>> = vec![
        b"/r/a.psd".to_vec(),
        b"/r/readme.txt".to_vec(),
        b"/r/b.jpg".to_vec(),
        b"/r/c".to_vec(),
    ];
    let kept = filter_candidates(&paths);
    assert_eq!(kept, vec![b"/r/a.psd".to_vec(), b"/r/b.jpg".to_vec()]);
}

#[test]
fn cached_path_is_fingerprint_plus_suffix() {
    let p = get_cached_path(b"/home/u/ARCHI/cache", b"abc123");
    assert_eq!(p, b"/home/u/ARCHI/cache/abc123.webp".to_vec());
}

#[test]
fn join_inserts_single_separator() {
    assert_eq!(join_path(b"/home/u", b"ARCHI"), b"/home/u/ARCHI".to_vec());
    assert_eq!(join_path(b"/home/u/", b"ARCHI"), b"/home/u/ARCHI".to_vec());
    assert_eq!(join_path(b"", b"ARCHI"), b"ARCHI".to_vec());
}

#[test]
fn data_dirs_hang_off_the_home() {
    if let Some(d) = get_user_data_dir() {
        assert!(d.ends_with(b"/ARCHI") || d.ends_with(b"ARCHI"));
    }
    if let Some(p) = get_config_path() {
        assert!(p.ends_with(b"ARCHI/config.json"));
    }
}
