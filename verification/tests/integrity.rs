use std::collections::HashMap;
use workshop_manager::integrity::{verify_begin, verify_digest, verify_exists, VerifyState};
use workshop_manager::model::FileInfo;

fn file(path: &str, hash: &str) -> FileInfo {
    FileInfo { path: path.to_string(), hash: hash.to_string() }
}

fn disk(entries: &[(&str, &str)]) -> HashMap<String, String> {
    entries.iter().map(|(p, d)| (p.to_string(), d.to_string())).collect()
}

/// Runs a verification against `disk` and counts the questions asked.
fn run(files: &Vec<FileInfo>, disk: &HashMap<String, String>) -> (bool, usize, usize) {
    let mut state = verify_begin(files);
    let mut looked = 0;
    let mut hashed = 0;
    loop {
        state = match state {
            VerifyState::AwaitExists(i) => {
                looked += 1;
                verify_exists(files, state, disk.contains_key(&files[i].path))
            }
            VerifyState::AwaitDigest(i) => {
                hashed += 1;
                verify_digest(files, state, &disk[&files[i].path])
            }
            VerifyState::Done(result) => return (result, looked, hashed),
        };
    }
}

#[test]
fn a_record_without_files_passes_at_once() {
    assert_eq!(verify_begin(&vec![]), VerifyState::Done(true));
}

#[test]
fn intact_files_pass() {
    let files = vec![file("a.bsp", "d1"), file("maps/b.bsp", "d2")];
    let disk = disk(&[("a.bsp", "d1"), ("maps/b.bsp", "d2"), ("other", "x")]);
    assert_eq!(run(&files, &disk), (true, 2, 2));
}

#[test]
fn a_missing_file_fails_and_ends_the_verification() {
    let files = vec![file("a.bsp", "d1"), file("b.bsp", "d2"), file("c.bsp", "d3")];
    let disk = disk(&[("a.bsp", "d1"), ("c.bsp", "d3")]);
    assert_eq!(run(&files, &disk), (false, 2, 1));
}

#[test]
fn a_changed_file_fails_and_ends_the_verification() {
    let files = vec![file("a.bsp", "d1"), file("b.bsp", "d2")];
    let disk = disk(&[("a.bsp", "changed"), ("b.bsp", "d2")]);
    assert_eq!(run(&files, &disk), (false, 1, 1));
}

#[test]
fn a_file_without_digest_only_has_to_exist() {
    let files = vec![file("a.bsp", ""), file("b.bsp", "d2")];
    let disk = disk(&[("a.bsp", "anything"), ("b.bsp", "d2")]);
    assert_eq!(run(&files, &disk), (true, 2, 1));
    let gone = disk_without_a();
    assert_eq!(run(&files, &gone), (false, 1, 0));
}

fn disk_without_a() -> HashMap<String, String> {
    disk(&[("b.bsp", "d2")])
}

#[test]
fn steps_follow_the_list() {
    let files = vec![file("a.bsp", "d1"), file("b.bsp", "")];
    let s0 = verify_begin(&files);
    assert_eq!(s0, VerifyState::AwaitExists(0));
    let s1 = verify_exists(&files, s0, true);
    assert_eq!(s1, VerifyState::AwaitDigest(0));
    let s2 = verify_digest(&files, s1, "d1");
    assert_eq!(s2, VerifyState::AwaitExists(1));
    assert_eq!(verify_exists(&files, s2, true), VerifyState::Done(true));
    assert_eq!(verify_exists(&files, s2, false), VerifyState::Done(false));
    assert_eq!(verify_digest(&files, s1, "other"), VerifyState::Done(false));
}

#[test]
fn answers_that_were_not_awaited_change_nothing() {
    let files = vec![file("a.bsp", "d1")];
    assert_eq!(verify_digest(&files, VerifyState::AwaitExists(0), "d1"), VerifyState::AwaitExists(0));
    assert_eq!(verify_exists(&files, VerifyState::AwaitDigest(0), false), VerifyState::AwaitDigest(0));
    assert_eq!(verify_exists(&files, VerifyState::Done(true), false), VerifyState::Done(true));
    assert_eq!(verify_exists(&files, VerifyState::AwaitExists(5), true), VerifyState::AwaitExists(5));
    assert_eq!(verify_digest(&files, VerifyState::AwaitDigest(5), "d1"), VerifyState::AwaitDigest(5));
}

#[test]
fn digest_questions_of_one_file() {
    assert!(file("a", "d").needs_digest());
    assert!(!file("a", "").needs_digest());
    assert!(file("a", "d").matches("d"));
    assert!(!file("a", "d").matches("D"));
    assert_eq!(file("a", "d").duplicate(), file("a", "d"));
}
