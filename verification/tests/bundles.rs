//! Bundles: what is taken out of an archive, and what is not.
use flate2::write::GzEncoder;
use flate2::Compression;
use std::io::Write;
use toolsite::content::archive::past_counting;
use toolsite::content::bundle::{
    bundle_entry_paths, bundle_strip_prefix, fill_plan, plan_bundle, read_sql_files, sql_in,
    unpack_bundle, EntryHeader,
};

/// Writes tar headers by hand. The `tar` crate's builder refuses to emit `..`
/// or absolute paths, which is exactly what these tests need.
fn raw_entry(path: &str, body: &[u8], type_flag: u8, link: &str) -> Vec<u8> {
    let mut header = [0u8; 512];
    let put = |header: &mut [u8; 512], offset: usize, bytes: &[u8]| {
        header[offset..offset + bytes.len()].copy_from_slice(bytes);
    };
    put(&mut header, 0, path.as_bytes());
    put(&mut header, 100, b"0000644\0");
    put(&mut header, 108, b"0000000\0");
    put(&mut header, 116, b"0000000\0");
    put(&mut header, 124, format!("{:011o}\0", body.len()).as_bytes());
    put(&mut header, 136, b"00000000000\0");
    header[156] = type_flag;
    put(&mut header, 157, link.as_bytes());
    put(&mut header, 257, b"ustar\0");
    put(&mut header, 263, b"00");

    // Checksum is computed with the checksum field itself read as spaces.
    put(&mut header, 148, b"        ");
    let sum: u32 = header.iter().map(|b| *b as u32).sum();
    put(&mut header, 148, format!("{sum:06o}\0 ").as_bytes());

    let mut out = header.to_vec();
    out.extend_from_slice(body);
    out.resize(out.len().div_ceil(512) * 512, 0);
    out
}

/// `entries` are (path, contents); a path ending in '@' is a symlink to
/// /etc/passwd.
fn tarball(entries: &[(&str, &str)]) -> Vec<u8> {
    let mut tar = Vec::new();
    for (path, body) in entries {
        match path.strip_suffix('@') {
            Some(link) => tar.extend(raw_entry(link, b"", b'2', "/etc/passwd")),
            None => tar.extend(raw_entry(path, body.as_bytes(), b'0', "")),
        }
    }
    tar.extend(std::iter::repeat_n(0u8, 1024)); // end-of-archive marker

    let mut encoder = GzEncoder::new(Vec::new(), Compression::fast());
    encoder.write_all(&tar).unwrap();
    encoder.finish().unwrap()
}

fn paths(body: &[u8]) -> Vec<String> {
    unpack_bundle(body).files.iter().map(|(path, _)| path.clone()).collect()
}

#[test]
fn a_normal_build_output_unpacks_whole() {
    let body = tarball(&[
        ("index.html", "<h1>hi</h1>"),
        ("assets/main-4f2a.js", "console.log(1)"),
        ("assets/main-4f2a.css", "body{}"),
    ]);
    let plan = unpack_bundle(&body);
    let unpacked = plan.outcome.unwrap();
    assert_eq!(
        unpacked.files,
        ["assets/main-4f2a.css", "assets/main-4f2a.js", "index.html"]
    );
    assert!(unpacked.skipped.is_empty(), "{:?}", unpacked.skipped);
    assert!(plan.files.contains(&("assets/main-4f2a.js".to_string(), b"console.log(1)".to_vec())));
}

#[test]
fn a_single_wrapping_directory_is_stripped() {
    let body = tarball(&[("dist/index.html", "<h1>hi</h1>"), ("dist/app.js", "x")]);
    let plan = unpack_bundle(&body);
    assert_eq!(plan.outcome.unwrap().files, ["app.js", "index.html"]);
    assert!(plan.files.contains(&("index.html".to_string(), b"<h1>hi</h1>".to_vec())));
    assert_eq!(
        bundle_entry_paths(&body).unwrap(),
        ["dist/index.html", "dist/app.js"]
    );
    assert_eq!(
        bundle_strip_prefix(&vec!["dist/index.html".into(), "dist/app.js".into()]).as_deref(),
        Some("dist")
    );
    assert_eq!(bundle_strip_prefix(&vec!["index.html".into(), "dist/app.js".into()]), None);
}

#[test]
fn traversal_aborts_the_whole_upload() {
    for path in ["../escape.html", "a/../../escape.html", "/etc/escape.html"] {
        let body = tarball(&[("index.html", "ok"), (path, "pwned")]);
        let plan = unpack_bundle(&body);
        let error = plan.outcome.err().unwrap();
        assert!(error.contains("unsafe path"), "{path:?} gave {error:?}");
        // Nothing from a rejected archive may be left behind outside the dest.
        assert!(plan.files.is_empty());
    }
}

#[test]
fn symlinks_are_skipped_and_reported_rather_than_followed() {
    let body = tarball(&[("index.html", "ok"), ("passwd.html@", "")]);
    let plan = unpack_bundle(&body);
    let unpacked = plan.outcome.unwrap();
    assert_eq!(unpacked.files, ["index.html"]);
    assert!(unpacked.skipped.contains(&"symlinks and special files"));
    assert_eq!(paths(&body), ["index.html"]);
}

#[test]
fn dotfiles_are_skipped_and_reported() {
    let body = tarball(&[("index.html", "ok"), (".env", "SECRET=1")]);
    let plan = unpack_bundle(&body);
    let unpacked = plan.outcome.unwrap();
    assert_eq!(unpacked.files, ["index.html"]);
    assert!(unpacked.skipped.contains(&"dotfiles"));
    assert_eq!(plan.files, [("index.html".to_string(), b"ok".to_vec())]);
}

#[test]
fn an_empty_archive_is_an_error_not_a_silent_success() {
    let error = unpack_bundle(&tarball(&[])).outcome.err().unwrap();
    assert!(error.contains("no files"), "got {error:?}");
}

#[test]
fn garbage_is_rejected_without_panicking() {
    assert!(unpack_bundle(b"not a gzip stream at all").outcome.is_err());
}

#[test]
fn a_listing_is_planned_without_an_archive() {
    let file = |path: &str, size: u64| {
        Ok(EntryHeader {
            is_dir: false,
            is_pax_global: false,
            is_long_name: false,
            is_file: true,
            path: path.to_string(),
            size: Some(size),
        })
    };
    let plan = plan_bundle(&vec![file("index.html", 3), file("a/b.css", 4)]);
    assert_eq!(plan.outcome.unwrap().files, ["a/b.css", "index.html"]);

    // One entry that lies about being enormous is enough to refuse all.
    let plan = plan_bundle(&vec![file("index.html", 3), file("huge.bin", u64::MAX)]);
    assert!(plan.outcome.is_err());
}

#[test]
fn a_file_that_cannot_be_read_stops_the_unpacking() {
    let file = |path: &str| {
        Ok(EntryHeader {
            is_dir: false,
            is_pax_global: false,
            is_long_name: false,
            is_file: true,
            path: path.to_string(),
            size: Some(1),
        })
    };
    let listing = vec![file("index.html"), file("a.css"), file("b.css")];
    let held = vec![Ok(b"1".to_vec()), Err("broken".to_string()), Ok(b"3".to_vec())];
    let bundle = fill_plan(plan_bundle(&listing), &held);
    assert_eq!(bundle.files, [("index.html".to_string(), b"1".to_vec())]);
    assert_eq!(bundle.outcome.err().unwrap(), "broken");

    let short = fill_plan(plan_bundle(&listing), &vec![Ok(vec![]), Ok(vec![])]);
    assert_eq!(short.files.len(), 2);
    assert_eq!(short.outcome.err().unwrap(), "unexpected end of archive");
}

#[test]
fn only_sql_is_read_of_a_schema() {
    let body = tarball(&[
        ("./migrations/002_b.sql", "create table b (id)"),
        ("readme.md", "no"),
        ("001_a.sql", "create table a (id)"),
    ]);
    assert_eq!(
        read_sql_files(&body).unwrap(),
        [
            ("002_b.sql".to_string(), "create table b (id)".to_string()),
            ("001_a.sql".to_string(), "create table a (id)".to_string()),
        ]
    );
    assert!(read_sql_files(b"not a gzip stream at all").is_err());

    let file = Ok(EntryHeader {
        is_dir: false,
        is_pax_global: false,
        is_long_name: false,
        is_file: true,
        path: "a/1.sql".to_string(),
        size: Some(1),
    });
    let listing = vec![file];
    assert_eq!(sql_in(&listing, &vec![Ok(vec![0xff])]), Err("1.sql is not UTF-8".to_string()));
    assert_eq!(sql_in(&listing, &vec![Err("broken".to_string())]), Err("broken".to_string()));
    assert!(sql_in(&listing, &vec![]).is_err());
}

/// The header of a GNU sparse file that further blocks describe, with a binary
/// size, and such a block behind it.
fn long_sparse(size: u64) -> Vec<u8> {
    let mut header = raw_entry("holes.bin", b"", b'S', "");
    header[124] = 0x80;
    header[125..128].fill(0);
    header[128..136].copy_from_slice(&size.to_be_bytes());
    header[257..265].copy_from_slice(b"ustar  \0");
    header[482] = 1;
    header[148..156].copy_from_slice(b"        ");
    let sum: u32 = header.iter().map(|b| *b as u32).sum();
    header[148..156].copy_from_slice(format!("{sum:06o}\0 ").as_bytes());
    header.extend([0u8; 1024]);
    header
}

fn gzipped(tar: &[u8]) -> Vec<u8> {
    let mut encoder = GzEncoder::new(Vec::new(), Compression::fast());
    encoder.write_all(tar).unwrap();
    encoder.finish().unwrap()
}

#[test]
fn an_archive_that_counts_past_the_end_is_refused() {
    let huge = gzipped(&long_sparse(0xffff_ffff_ffff_fc00));
    let bundle = unpack_bundle(&huge);
    assert_eq!(bundle.outcome.err().unwrap(), "size overflow");
    assert!(bundle.files.is_empty());
    assert_eq!(bundle_entry_paths(&huge), Err("size overflow".to_string()));
    assert_eq!(read_sql_files(&huge), Err("size overflow".to_string()));

    // The size may come from an extension just as well.
    let mut tar = raw_entry("pax", b"29 size=18446744073709549568\n", b'x', "");
    tar.extend(long_sparse(0));
    assert!(past_counting(&gzipped(&tar)));
    assert_eq!(unpack_bundle(&gzipped(&tar)).outcome.err().unwrap(), "size overflow");

    // A sparse file that claims no more than there could be is left to the
    // reader.
    let small = unpack_bundle(&gzipped(&long_sparse(0))).outcome.err().unwrap();
    assert_ne!(small, "size overflow");
}

#[test]
fn only_headers_are_counted_by() {
    // What a file holds may look like any header.
    let mut lookalike = raw_entry("pax", b"29 size=18446744073709549568\n", b'x', "");
    lookalike.extend(long_sparse(0xffff_ffff_ffff_fc00));
    let mut tar = raw_entry("index.html", b"<h1>hi</h1>", b'0', "");
    tar.extend(raw_entry("data.bin", &lookalike, b'0', ""));
    tar.extend([0u8; 1024]);
    // Nor does what follows the end count.
    tar.extend(long_sparse(0xffff_ffff_ffff_fc00));
    let body = gzipped(&tar);
    assert!(!past_counting(&body));
    let bundle = unpack_bundle(&body);
    assert!(bundle.outcome.is_ok());
    assert_eq!(bundle.files[1], ("data.bin".to_string(), lookalike));

    // Behind a file, a header counts.
    let mut tar = raw_entry("index.html", &[b'x'; 70_000], b'0', "");
    tar.extend(raw_entry("name", b"long.bin\0", b'L', ""));
    let most = u64::MAX - 511 - 512 - tar.len() as u64;
    let (mut fits, mut exceeds) = (tar.clone(), tar.clone());
    fits.extend(long_sparse(most - 512));
    exceeds.extend(long_sparse(most + 512));
    tar.extend(long_sparse(most));
    let body = gzipped(&tar);
    assert!(past_counting(&body));
    assert_eq!(unpack_bundle(&body).outcome.err().unwrap(), "size overflow");
    // Less can be counted, and more is an error of the reader's own.
    assert!(!past_counting(&gzipped(&fits)));
    assert!(!past_counting(&gzipped(&exceeds)));
    assert_eq!(unpack_bundle(&gzipped(&exceeds)).outcome.err().unwrap(), "size overflow");
    // Of a file that is not sparse any size can be claimed.
    let mut plain = long_sparse(0xffff_ffff_ffff_fc00);
    assert!(past_counting(&gzipped(&plain)));
    plain[156] = b'0';
    assert!(!past_counting(&gzipped(&plain)));
    // Not where it cannot be reached: the archive ends within the file, its bytes
    // end within the header, or there are none.
    assert!(!past_counting(&gzipped(&tar[..60_000])));
    assert!(!past_counting(&gzipped(&tar[..tar.len() - 1_100])));
    assert!(!past_counting(&body[..40]));
    assert!(!past_counting(b"not a tarball"));
}
