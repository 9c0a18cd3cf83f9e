use comic_ingest::archive::Archive;
use comic_ingest::extract::conclude;
use comic_ingest::extract::open_archive;
use comic_ingest::extract::plan_entry;
use comic_ingest::extract::plan_extraction;
use comic_ingest::extract::ExtractError;
use comic_ingest::extract::ExtractPlan;
use comic_ingest::extract::ExtractStep;
use std::io::Cursor;
use std::io::Write;
use zip::write::SimpleFileOptions;
use zip::CompressionMethod;
use zip::ZipWriter;

enum Entry<'a> {
    Stored(&'a str, &'a [u8]),
    Deflated(&'a str, &'a [u8]),
    Directory(&'a str),
}

fn zip_of(entries: &[Entry]) -> Vec<u8> {
    let mut writer = ZipWriter::new(Cursor::new(Vec::new()));
    for entry in entries {
        match entry {
            Entry::Stored(name, data) => {
                let options =
                    SimpleFileOptions::default().compression_method(CompressionMethod::Stored);
                writer.start_file(*name, options).unwrap();
                writer.write_all(data).unwrap();
            }
            Entry::Deflated(name, data) => {
                let options =
                    SimpleFileOptions::default().compression_method(CompressionMethod::Deflated);
                writer.start_file(*name, options).unwrap();
                writer.write_all(data).unwrap();
            }
            Entry::Directory(name) => {
                writer.add_directory(*name, SimpleFileOptions::default()).unwrap();
            }
        }
    }
    writer.finish().unwrap().into_inner()
}

fn open(bytes: Vec<u8>) -> Archive {
    open_archive(Ok(bytes)).expect("a zip container")
}

fn refused(index: usize, name: &str) -> Option<ExtractError> {
    Some(ExtractError::EntryFailed {
        entry_index: index,
        cause: format!("Entry name leaves the destination: {}", name),
    })
}

fn file(path: &str, contents: &[u8]) -> ExtractStep {
    ExtractStep::WriteFile { path: path.to_string(), contents: contents.to_vec() }
}

fn directory(path: &str) -> ExtractStep {
    ExtractStep::MakeDirectory { path: path.to_string() }
}

fn corrupt(mut bytes: Vec<u8>, needle: &[u8]) -> Vec<u8> {
    let at = bytes
        .windows(needle.len())
        .position(|window| window == needle)
        .expect("the stored data stands in the archive");
    bytes[at] ^= 0xff;
    bytes
}

#[test]
fn extraction_plans_the_file_and_the_directory() {
    let bytes = zip_of(&[Entry::Stored("a/b.txt", b"hi"), Entry::Directory("a/")]);
    let mut archive = open(bytes);
    assert_eq!(archive.len(), 2);
    let plan = plan_extraction(&mut archive, "D");
    assert_eq!(
        plan,
        ExtractPlan { steps: vec![file("D/a/b.txt", b"hi"), directory("D/a/")], failure: None }
    );
}

#[test]
fn extracting_again_gives_the_same_plan() {
    let bytes = zip_of(&[Entry::Stored("a/b.txt", b"hi"), Entry::Directory("a/")]);
    let mut archive = open(bytes.clone());
    let first = plan_extraction(&mut archive, "D");
    let second = plan_extraction(&mut archive, "D");
    assert_eq!(first, second);
    let third = plan_extraction(&mut open(bytes), "D");
    assert_eq!(first, third);
}

#[test]
fn steps_follow_the_order_of_the_archive() {
    let bytes = zip_of(&[
        Entry::Stored("z.txt", b"last letter first"),
        Entry::Directory("m"),
        Entry::Deflated("a/deep/x.bin", &[0, 1, 2, 3]),
        Entry::Stored("b.txt", b""),
    ]);
    let plan = plan_extraction(&mut open(bytes), "/dest/");
    assert_eq!(
        plan.steps,
        vec![
            file("/dest/z.txt", b"last letter first"),
            directory("/dest/m/"),
            file("/dest/a/deep/x.bin", &[0, 1, 2, 3]),
            file("/dest/b.txt", b""),
        ]
    );
    assert_eq!(plan.failure, None);
}

#[test]
fn extracted_bytes_are_the_decompressed_bytes() {
    let mut data = Vec::new();
    for i in 0..20000u32 {
        data.push((i % 251) as u8);
        data.push((i / 7 % 13) as u8);
    }
    let bytes = zip_of(&[Entry::Deflated("big.bin", &data), Entry::Stored("raw.bin", &data)]);
    assert!(bytes.len() < 2 * data.len());
    let plan = plan_extraction(&mut open(bytes), "out");
    assert_eq!(plan.steps, vec![file("out/big.bin", &data), file("out/raw.bin", &data)]);
}

#[test]
fn an_empty_archive_has_an_empty_plan() {
    let mut archive = open(zip_of(&[]));
    assert_eq!(archive.len(), 0);
    assert_eq!(plan_extraction(&mut archive, "D"), ExtractPlan { steps: vec![], failure: None });
}

#[test]
fn a_name_that_climbs_above_the_destination_is_refused() {
    let bytes = zip_of(&[Entry::Stored("ok.txt", b"fine"), Entry::Stored("../escape.txt", b"x")]);
    let plan = plan_extraction(&mut open(bytes), "D");
    assert_eq!(plan.steps, vec![file("D/ok.txt", b"fine")]);
    assert_eq!(plan.failure, refused(1, "../escape.txt"));
}

#[test]
fn an_absolute_name_is_refused() {
    let bytes = zip_of(&[Entry::Stored("/tmp/evil", b"x"), Entry::Stored("after.txt", b"y")]);
    let mut archive = open(bytes);
    assert_eq!(archive.name_at(0), Ok("/tmp/evil".to_string()));
    let plan = plan_extraction(&mut archive, "D");
    assert_eq!(plan.steps, vec![]);
    assert_eq!(plan.failure, refused(0, "/tmp/evil"));
}

#[test]
fn a_name_that_climbs_and_comes_back_stays_inside() {
    let bytes = zip_of(&[
        Entry::Stored("a/../b.txt", b"1"),
        Entry::Stored("./c/./d.txt", b"2"),
        Entry::Stored("a/b/../../../e.txt", b"3"),
    ]);
    let plan = plan_extraction(&mut open(bytes), "D");
    assert_eq!(plan.steps, vec![file("D/a/../b.txt", b"1"), file("D/./c/./d.txt", b"2")]);
    assert_eq!(plan.failure, refused(2, "a/b/../../../e.txt"));
}

#[test]
fn no_step_leaves_the_destination() {
    let names = ["x", "a/b", "..", "../x", "a/../..", "/abs", "a//b", "...", "a/..", "..a/b"];
    for name in names {
        let bytes = zip_of(&[Entry::Stored(name, b"data")]);
        let plan = plan_extraction(&mut open(bytes), "/dest");
        for step in &plan.steps {
            let path = match step {
                ExtractStep::MakeDirectory { path } => path,
                ExtractStep::WriteFile { path, .. } => path,
            };
            let mut depth = 0i32;
            assert!(path.starts_with("/dest/"), "{:?}", path);
            for segment in path["/dest/".len()..].split('/') {
                match segment {
                    ".." => depth -= 1,
                    "" | "." => {}
                    _ => depth += 1,
                }
                assert!(depth >= 0, "{:?} leaves the destination", path);
            }
        }
        assert_eq!(plan.steps.len() + usize::from(plan.failure.is_some()), 1);
    }
}

#[test]
fn an_archive_that_cannot_be_read_fails_to_open() {
    match open_archive(Err("No such file or directory (os error 2)".to_string())) {
        Err(error) => {
            assert_eq!(
                error,
                ExtractError::OpenFailed {
                    cause: "No such file or directory (os error 2)".to_string()
                }
            );
            assert_eq!(
                error.message(),
                "Failed to open archive: No such file or directory (os error 2)"
            );
        }
        Ok(_) => panic!("a missing file was opened"),
    }
}

#[test]
fn the_first_step_that_cannot_be_written_fails_the_extraction() {
    let stopped = || Some(ExtractError::EntryFailed { entry_index: 4, cause: "bad".to_string() });
    assert_eq!(conclude(None, None), Ok(()));
    assert_eq!(conclude(stopped(), None), Err(stopped().unwrap()));
    assert_eq!(
        conclude(stopped(), Some((2, "disk full".to_string()))),
        Err(ExtractError::EntryFailed { entry_index: 2, cause: "disk full".to_string() })
    );
    assert_eq!(
        conclude(None, Some((0, "denied".to_string()))),
        Err(ExtractError::EntryFailed { entry_index: 0, cause: "denied".to_string() })
    );
}

#[test]
fn a_damaged_entry_stops_the_plan_and_keeps_what_came_before() {
    let bytes = zip_of(&[
        Entry::Stored("one.txt", b"first entry"),
        Entry::Stored("two.txt", b"second entry"),
        Entry::Stored("three.txt", b"third entry"),
    ]);
    let plan = plan_extraction(&mut open(corrupt(bytes, b"second entry")), "D");
    assert_eq!(plan.steps, vec![file("D/one.txt", b"first entry")]);
    match plan.failure {
        Some(ExtractError::EntryFailed { entry_index, cause }) => {
            assert_eq!(entry_index, 1);
            assert!(!cause.is_empty());
        }
        other => panic!("expected a failed entry, got {:?}", other),
    }
}

#[test]
fn a_damaged_directory_marker_is_not_read() {
    let bytes = zip_of(&[Entry::Directory("d/"), Entry::Stored("d/x", b"payload of x")]);
    let plan = plan_extraction(&mut open(bytes), "D");
    assert_eq!(plan.steps, vec![directory("D/d/"), file("D/d/x", b"payload of x")]);
}

#[test]
fn plan_entry_plans_one_entry() {
    let bytes = zip_of(&[Entry::Stored("a/b.txt", b"hi"), Entry::Directory("a/")]);
    let mut archive = open(bytes);
    assert_eq!(plan_entry(&mut archive, 1, "D"), Ok(directory("D/a/")));
    assert_eq!(plan_entry(&mut archive, 0, "D"), Ok(file("D/a/b.txt", b"hi")));
    match plan_entry(&mut archive, 2, "D") {
        Err(ExtractError::EntryFailed { entry_index, .. }) => assert_eq!(entry_index, 2),
        other => panic!("expected a failed entry, got {:?}", other),
    }
}

#[test]
fn archive_yields_names_and_payloads() {
    let bytes = zip_of(&[Entry::Deflated("p/one.png", b"PNGDATA"), Entry::Directory("p/")]);
    let mut archive = Archive::open(bytes).expect("a zip container");
    assert_eq!(archive.len(), 2);
    assert_eq!(archive.name_at(0), Ok("p/one.png".to_string()));
    assert_eq!(archive.name_at(1), Ok("p/".to_string()));
    assert!(archive.name_at(2).is_err());
    assert_eq!(archive.payload_at(0), Ok(b"PNGDATA".to_vec()));
    assert_eq!(archive.payload_at(1), Ok(Vec::new()));
    assert!(archive.payload_at(2).is_err());
    assert_eq!(archive.payload_named("p/one.png"), Ok(Ok(b"PNGDATA".to_vec())));
    assert_eq!(
        archive.payload_named("missing"),
        Err("specified file not found in archive".to_string())
    );
}

#[test]
fn extract_fails_to_open_what_is_no_zip() {
    match open_archive(Ok(b"this is plain text, not an archive".to_vec())) {
        Err(ExtractError::OpenFailed { cause }) => assert!(!cause.is_empty()),
        Err(other) => panic!("expected an open failure, got {:?}", other),
        Ok(_) => panic!("plain text was opened as an archive"),
    }
    assert!(matches!(open_archive(Ok(Vec::new())), Err(ExtractError::OpenFailed { .. })));
}

#[test]
fn extract_messages_name_the_kind_and_the_cause() {
    assert_eq!(
        ExtractError::OpenFailed { cause: "no such file".to_string() }.message(),
        "Failed to open archive: no such file"
    );
    assert_eq!(
        ExtractError::EntryFailed { entry_index: 12, cause: "Invalid checksum".to_string() }
            .message(),
        "Failed to extract entry 12: Invalid checksum"
    );
}
