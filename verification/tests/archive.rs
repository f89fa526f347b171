use modify::archive::{archive_entries, zip_folder, Node};
use modify::zip_store::Compression;
use std::io::{Cursor, Read};

fn file(name: &str, data: &[u8]) -> Node {
    Node::File { name: name.to_string(), data: data.to_vec() }
}

fn dir(name: &str, children: Vec<Node>) -> Node {
    Node::Dir { name: name.to_string(), children }
}

fn read_back(bytes: Vec<u8>) -> Vec<(String, bool, Option<u32>, Vec<u8>)> {
    let mut archive = zip::ZipArchive::new(Cursor::new(bytes)).unwrap();
    let mut found = Vec::new();
    for i in 0..archive.len() {
        let mut entry = archive.by_index(i).unwrap();
        let mut data = Vec::new();
        entry.read_to_end(&mut data).unwrap();
        found.push((entry.name().to_string(), entry.is_dir(), entry.unix_mode(), data));
    }
    found
}

#[test]
fn small_tree_round_trips() {
    let tree = vec![file("a.txt", b"hi"), dir("sub", vec![file("b.txt", b"bye")])];
    let bytes = zip_folder(&tree, 0o40755).unwrap();
    let found = read_back(bytes);
    assert_eq!(found.len(), 3);
    assert_eq!(found[0], ("a.txt".to_string(), false, Some(0o100755), b"hi".to_vec()));
    assert_eq!(found[1], ("sub/".to_string(), true, Some(0o40755), Vec::new()));
    assert_eq!(found[2], ("sub/b.txt".to_string(), false, Some(0o100755), b"bye".to_vec()));
}

#[test]
fn small_tree_entries_in_walk_order() {
    let tree = vec![file("a.txt", b"hi"), dir("sub", vec![file("b.txt", b"bye")])];
    let entries = archive_entries(&tree, 0o755);
    let names: Vec<&str> = entries.iter().map(|e| e.name.as_str()).collect();
    assert_eq!(names, vec!["a.txt", "sub", "sub/b.txt"]);
    assert_eq!(entries[0].data, b"hi".to_vec());
    assert!(!entries[0].is_dir);
    assert!(entries[1].is_dir);
    assert!(entries[1].data.is_empty());
    assert_eq!(entries[2].data, b"bye".to_vec());
    assert!(entries.iter().all(|e| e.mode == 0o755));
    assert!(entries.iter().all(|e| e.method == Compression::Stored));
}

#[test]
fn empty_tree_gives_valid_empty_archive() {
    let bytes = zip_folder(&Vec::new(), 0o755).unwrap();
    assert!(read_back(bytes).is_empty());
    assert!(archive_entries(&Vec::new(), 0o755).is_empty());
}

#[test]
fn nested_directories_come_before_what_they_hold() {
    let tree = vec![
        dir("a", vec![dir("b", vec![file("deep.bin", &[0, 255, 7]), dir("empty", Vec::new())])]),
        file("z", b""),
    ];
    let entries = archive_entries(&tree, 0o700);
    let listed: Vec<(&str, bool)> = entries.iter().map(|e| (e.name.as_str(), e.is_dir)).collect();
    assert_eq!(
        listed,
        vec![("a", true), ("a/b", true), ("a/b/deep.bin", false), ("a/b/empty", true), ("z", false)]
    );
    let found = read_back(zip_folder(&tree, 0o700).unwrap());
    let names: Vec<&str> = found.iter().map(|f| f.0.as_str()).collect();
    assert_eq!(names, vec!["a/", "a/b/", "a/b/deep.bin", "a/b/empty/", "z"]);
    assert_eq!(found[2].3, vec![0, 255, 7]);
    assert_eq!(found[4].3, Vec::<u8>::new());
    assert!(found[3].1);
}

#[test]
fn every_entry_carries_the_permission_bits_of_the_root() {
    let tree = vec![file("run.sh", b"#!/bin/sh"), dir("d", vec![file("f", b"x")])];
    let found = read_back(zip_folder(&tree, 0o100640).unwrap());
    assert_eq!(found[0].2, Some(0o100640));
    assert_eq!(found[1].2, Some(0o40640));
    assert_eq!(found[2].2, Some(0o100640));
}

#[test]
fn archive_stores_bytes_without_compression() {
    let data = vec![b'a'; 4096];
    let tree = vec![file("a.txt", &data)];
    let bytes = zip_folder(&tree, 0o644).unwrap();
    assert!(bytes.len() > 4096);
    let mut archive = zip::ZipArchive::new(Cursor::new(bytes)).unwrap();
    let entry = archive.by_index(0).unwrap();
    assert_eq!(entry.compression(), zip::CompressionMethod::Stored);
    assert_eq!(entry.compressed_size(), 4096);
    assert_eq!(entry.size(), 4096);
}

#[test]
fn same_tree_gives_same_archive() {
    let tree = vec![file("a.txt", b"hi"), dir("sub", vec![file("b.txt", b"bye")])];
    assert_eq!(zip_folder(&tree, 0o755).unwrap(), zip_folder(&tree, 0o755).unwrap());
}

#[test]
fn directories_are_stored_too() {
    let tree = vec![dir("d", vec![file("f", b"x")])];
    let mut archive = zip::ZipArchive::new(Cursor::new(zip_folder(&tree, 0o755).unwrap())).unwrap();
    for i in 0..archive.len() {
        assert_eq!(archive.by_index(i).unwrap().compression(), zip::CompressionMethod::Stored);
    }
}

#[test]
fn every_entry_carries_the_fixed_date() {
    let tree = vec![file("a.txt", b"hi"), dir("sub", Vec::new())];
    let mut archive = zip::ZipArchive::new(Cursor::new(zip_folder(&tree, 0o755).unwrap())).unwrap();
    for i in 0..archive.len() {
        let stamp = archive.by_index(i).unwrap().last_modified();
        assert_eq!((stamp.year(), stamp.month(), stamp.day()), (1980, 1, 1));
        assert_eq!((stamp.hour(), stamp.minute(), stamp.second()), (0, 0, 0));
    }
}

#[test]
fn archiving_succeeds_for_trees_of_every_shape() {
    let trees = vec![
        Vec::new(),
        vec![file("only", b"")],
        vec![dir("empty", Vec::new())],
        vec![dir("a", vec![dir("b", vec![dir("c", vec![file("f", &[1, 2, 3])])])])],
        vec![file("x", &vec![7u8; 100_000]), file("y", b"y"), dir("z", vec![file("x", b"again")])],
    ];
    for tree in trees {
        let count = archive_entries(&tree, 0o755).len();
        let found = read_back(zip_folder(&tree, 0o755).unwrap());
        assert_eq!(found.len(), count);
    }
}
