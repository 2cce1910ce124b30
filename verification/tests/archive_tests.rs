use std::io::Write;

use normal_oj::archive::{check_entries, validate_test_case, ArchiveEntry};
use normal_oj::error::ArchiveIssue;
use normal_oj::problems::tasks::ProblemTask;
use zip::write::SimpleFileOptions;

fn task(problem_id: i32, count: i32) -> ProblemTask {
    ProblemTask {
        id: 1,
        problem_id,
        test_case_count: count,
        score: 100,
        time_limit: 1000,
        memory_limit: 65535,
    }
}

fn build_zip(files: &[&str]) -> Vec<u8> {
    let mut buf = std::io::Cursor::new(Vec::new());
    {
        let mut w = zip::ZipWriter::new(&mut buf);
        let opt = SimpleFileOptions::default();
        for name in files {
            w.start_file(name.to_string(), opt).unwrap();
            w.write_all(b"data\n").unwrap();
        }
        w.finish().unwrap();
    }
    buf.into_inner()
}

/// The four expected files of one task with two cases.
fn complete_set() -> Vec<&'static str> {
    vec![
        "test-case/0000/STDIN",
        "test-case/0000/STDOUT",
        "test-case/0001/STDIN",
        "test-case/0001/STDOUT",
    ]
}

#[test]
fn exact_archive_validates() {
    let tasks = vec![task(1, 2)];
    let bytes = build_zip(&complete_set());
    assert!(validate_test_case(&tasks, &bytes).is_ok());
}

#[test]
fn exact_archive_validates_in_any_order() {
    let tasks = vec![task(1, 2)];
    let bytes = build_zip(&[
        "test-case/0001/STDOUT",
        "test-case/0000/STDIN",
        "test-case/0001/STDIN",
        "test-case/0000/STDOUT",
    ]);
    assert!(validate_test_case(&tasks, &bytes).is_ok());
}

#[test]
fn directories_are_skipped() {
    let tasks = vec![task(1, 2)];
    let mut buf = std::io::Cursor::new(Vec::new());
    {
        let mut w = zip::ZipWriter::new(&mut buf);
        let opt = SimpleFileOptions::default();
        w.add_directory("include/", opt).unwrap();
        w.add_directory("share/", opt).unwrap();
        for name in complete_set() {
            w.start_file(name.to_string(), opt).unwrap();
            w.write_all(b"data\n").unwrap();
        }
        w.finish().unwrap();
    }
    assert!(validate_test_case(&tasks, &buf.into_inner()).is_ok());
}

#[test]
fn removing_any_expected_file_is_missing() {
    let tasks = vec![task(1, 2)];
    let all = complete_set();
    for skip in 0..all.len() {
        let partial: Vec<&str> = all
            .iter()
            .enumerate()
            .filter(|(i, _)| *i != skip)
            .map(|(_, f)| *f)
            .collect();
        let bytes = build_zip(&partial);
        match validate_test_case(&tasks, &bytes) {
            Err(ArchiveIssue::Missing(files)) => {
                assert_eq!(files.len(), 1);
                assert_eq!(files[0].task, 0);
                assert_eq!(files[0].case, skip / 2);
                assert_eq!(files[0].stdin, skip % 2 == 0);
            }
            other => panic!("expected a missing-files error, got {:?}", other),
        }
    }
}

#[test]
fn extra_file_is_rejected() {
    let tasks = vec![task(1, 2)];
    let mut files = complete_set();
    files.push("test-case/0002/STDIN");
    let bytes = build_zip(&files);
    assert!(matches!(
        validate_test_case(&tasks, &bytes),
        Err(ArchiveIssue::ExtraOrDuplicate(_))
    ));

    let mut files = complete_set();
    files.push("README");
    let bytes = build_zip(&files);
    assert!(matches!(
        validate_test_case(&tasks, &bytes),
        Err(ArchiveIssue::ExtraOrDuplicate(_))
    ));
}

#[test]
fn duplicate_file_is_rejected() {
    // the zip writer refuses to write the same name twice, so the
    // duplicate reaches the checker as an entry list
    let tasks = vec![task(1, 2)];
    let mut entries: Vec<ArchiveEntry> = complete_set()
        .iter()
        .map(|name| ArchiveEntry {
            symlink: false,
            dir: false,
            name: name.to_string(),
            path: Some(name.to_string()),
        })
        .collect();
    entries.push(ArchiveEntry {
        symlink: false,
        dir: false,
        name: "test-case/0000/STDIN".to_string(),
        path: Some("test-case/0000/STDIN".to_string()),
    });
    assert!(matches!(
        check_entries(&tasks, &entries),
        Err(ArchiveIssue::ExtraOrDuplicate(_))
    ));
}

#[test]
fn unsafe_path_is_rejected() {
    // a traversal path never resolves inside the archive
    let tasks = vec![task(1, 2)];
    let entries = vec![ArchiveEntry {
        symlink: false,
        dir: false,
        name: "../../etc/passwd".to_string(),
        path: None,
    }];
    assert!(matches!(
        check_entries(&tasks, &entries),
        Err(ArchiveIssue::UnsafePath(_))
    ));
}

#[test]
fn symlink_is_rejected_regardless_of_name() {
    let tasks = vec![task(1, 2)];
    let mut buf = std::io::Cursor::new(Vec::new());
    {
        let mut w = zip::ZipWriter::new(&mut buf);
        let opt = SimpleFileOptions::default();
        for name in complete_set() {
            w.start_file(name.to_string(), opt).unwrap();
            w.write_all(b"data\n").unwrap();
        }
        w.add_symlink("innocent-link", "/etc/hostname", opt).unwrap();
        w.finish().unwrap();
    }
    assert!(matches!(
        validate_test_case(&tasks, &buf.into_inner()),
        Err(ArchiveIssue::Symlink(_))
    ));
}

#[test]
fn garbage_bytes_are_unreadable() {
    let tasks = vec![task(1, 2)];
    let bytes: Vec<u8> = b"this is not a zip archive".to_vec();
    assert_eq!(
        validate_test_case(&tasks, &bytes),
        Err(ArchiveIssue::Unreadable)
    );
}

#[test]
fn oversized_task_list_is_rejected() {
    let tasks = vec![task(1, 101)];
    let bytes = build_zip(&complete_set());
    assert_eq!(
        validate_test_case(&tasks, &bytes),
        Err(ArchiveIssue::IndexOverflow)
    );
}

#[test]
fn zero_case_task_accepts_empty_archive() {
    let tasks = vec![task(1, 0)];
    let bytes = build_zip(&[]);
    assert!(validate_test_case(&tasks, &bytes).is_ok());
}
