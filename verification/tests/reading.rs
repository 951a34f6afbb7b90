//! Reading directories, porcelain output and the output of a process.

use ami_workbench::git::{
    merge_status, parse_git_porcelain_v2, parse_git_porcelain_v2_capped, safe_join, GitStatus,
};
use ami_workbench::git_status::{
    Capture, CappedOutput, ExitReport, GitAction, GitEvent, GitProgress, GitRun, Spawn,
    GIT_OUTPUT_CAP_BYTES, GIT_TIMEOUT, PIPE_GRACE,
};
use ami_workbench::listing::names_each_entry_once;
use ami_workbench::load::{DirectoryItem, DirectoryReader, FileType};
use ami_workbench::path::PathBuf;
use ami_workbench::text::trim_text;
use ami_workbench::tree::EntryKind;

fn path(text: &str) -> PathBuf {
    PathBuf::from_bytes(text.as_bytes())
}

#[test]
fn porcelain_v2_parses_all_relevant_records_and_two_nul_rename() {
    let input = b"1 M. N... 100644 100644 100644 abc abc src/a file\0\
2 R. N... 100644 100644 100644 abc abc R100 new name\0old name\0\
u UU N... 100644 100644 100644 100644 a b c conflict\0\
? untracked\0\
1 .D N... 100644 100644 000000 abc abc deleted\0";
    let parsed = parse_git_porcelain_v2(input).unwrap();
    assert_eq!(parsed.len(), 5);
    assert_eq!(parsed[0].status, GitStatus::Modified);
    assert_eq!(parsed[0].path, path("src/a file"));
    assert_eq!(parsed[1].status, GitStatus::Renamed);
    assert_eq!(parsed[1].path, path("new name"));
    assert_eq!(parsed[1].original_path, Some(path("old name")));
    assert_eq!(parsed[2].status, GitStatus::Conflict);
    assert_eq!(parsed[3].status, GitStatus::Untracked);
    assert_eq!(parsed[4].status, GitStatus::Deleted);
}

#[test]
fn parser_rejects_git_snapshots_over_the_change_cap() {
    let input = b"? first\0? second\0";
    let error = parse_git_porcelain_v2_capped(input, 1).unwrap_err();
    assert!(error.contains("change cap"));
    assert_eq!(error, "git change cap reached (1)");
    assert_eq!(parse_git_porcelain_v2_capped(input, 2).unwrap().len(), 2);
}

#[test]
fn porcelain_headers_and_ignored_files_are_passed_over() {
    let parsed = parse_git_porcelain_v2(b"# branch.oid abc\0! ignored\0\0? seen\0").unwrap();
    assert_eq!(parsed.len(), 1);
    assert_eq!(parsed[0].path, path("seen"));
}

#[test]
fn malformed_records_are_errors() {
    assert!(parse_git_porcelain_v2(b"1 M. short\0").is_err());
    assert!(parse_git_porcelain_v2(b"x nonsense\0").is_err());
    assert!(parse_git_porcelain_v2(
        b"2 R. N... 100644 100644 100644 abc abc R100 new name"
    )
    .is_err());
}

#[test]
fn the_strongest_status_stays() {
    assert_eq!(merge_status(None, GitStatus::Added), GitStatus::Added);
    assert_eq!(
        merge_status(Some(GitStatus::Modified), GitStatus::Conflict),
        GitStatus::Conflict
    );
    assert_eq!(
        merge_status(Some(GitStatus::Conflict), GitStatus::Modified),
        GitStatus::Conflict
    );
}

#[test]
fn reported_paths_stay_under_the_root() {
    assert_eq!(safe_join(&path("/w"), &path("a/b")), Some(path("/w/a/b")));
    assert_eq!(safe_join(&path("/w"), &path("../a")), None);
    assert_eq!(safe_join(&path("/w"), &path("/etc")), None);
}

#[test]
fn paths_that_are_spelled_differently_are_the_same() {
    assert_eq!(path("/w//a/./b/"), path("/w/a/b"));
    assert_eq!(path("/w/a/b").display(), "/w/a/b");
    assert_eq!(path("/w/a").parent(), Some(path("/w")));
    assert_eq!(path("/w/a").file_name(), Some(b"a".to_vec()));
    assert_eq!(path("/").parent(), None);
    assert!(path("/w/ab").starts_with(&path("/w")));
    assert!(!path("/wx").starts_with(&path("/w")));
}

#[test]
fn paths_keep_the_bytes_they_are_written_with() {
    for text in [&b"a/"[..], b"/w//a/./b/", b"./a", b"", b"/", b"\xff\xfe/\x80"] {
        assert_eq!(PathBuf::from_bytes(text).to_bytes(), text);
    }
    assert_eq!(path("/w//a/./b/").display(), "/w//a/./b/");
    assert_eq!(path("/w//a/./b/").take(3).to_bytes(), b"/w/a");
    for (text, parent) in [
        ("/w//a/./b/", "/w//a"),
        ("/w//a/./b/./", "/w//a"),
        ("a/./b", "a"),
        ("./a", "."),
        ("././a", "."),
        ("a", ""),
        (".", ""),
        ("./", ""),
        ("./.", ""),
        ("/a", "/"),
        ("//a//", "/"),
        ("/./a", "/"),
        ("a/../b.", "a/.."),
        ("a/.b", "a"),
    ] {
        let above = path(text).parent().unwrap();
        assert_eq!(above.display(), parent);
        assert_eq!(above, path(parent));
        assert_eq!(std::path::Path::new(text).parent().unwrap().to_str().unwrap(), parent);
    }
    assert_eq!(path("/w//").child(&b"a".to_vec()).display(), "/w//a");
    assert_eq!(path("/w/./x").child(&b"a".to_vec()).display(), "/w/./x/a");
    assert_eq!(path("w").join(&path("a//b")).display(), "w/a//b");
    assert_eq!(path("w").join(&path("/a/")).display(), "/a/");
    assert_eq!(path("").join(&path("a")).display(), "a");
    assert_ne!(PathBuf::from_bytes(b"\xff"), PathBuf::from_bytes(b"\xfe"));
}

#[test]
fn reported_paths_keep_their_bytes() {
    let parsed = parse_git_porcelain_v2(
        b"? new/\0? \xff\xfe\0\
2 R. N... 100644 100644 100644 abc abc R100 to//here\0./from\0",
    )
    .unwrap();
    assert_eq!(parsed[0].path.to_bytes(), b"new/");
    assert_eq!(parsed[0].path, path("new"));
    assert_eq!(parsed[1].path.to_bytes(), b"\xff\xfe");
    assert_eq!(parsed[2].path.to_bytes(), b"to//here");
    assert_eq!(parsed[2].original_path.as_ref().unwrap().to_bytes(), b"./from");
}

#[test]
fn messages_show_paths_as_they_are_written() {
    let start = |canonical: Result<PathBuf, String>| {
        DirectoryReader::start(path("/w"), path("/w//a/"), Vec::new(), 9, canonical)
    };
    assert_eq!(
        start(Err("denied".to_owned())).err().unwrap(),
        "failed to resolve /w//a/: denied"
    );
    let mut reader = start(Ok(path("/w/a"))).ok().unwrap();
    assert_eq!(reader.read_failure("denied"), "failed to read /w//a/: denied");
    let broken = DirectoryItem { name: b"b".to_vec(), file_type: Err("denied".to_owned()) };
    assert_eq!(reader.accept(Ok(broken)).unwrap_err(), "failed to inspect /w//a/b: denied");
}

#[test]
fn white_space_is_what_unicode_calls_so() {
    let inner = "\u{200b}a b\u{feff}";
    let spaces = "\t\n\u{b}\u{c}\r \u{85}\u{a0}\u{1680}\u{2000}\u{200a}\u{2028}\u{2029}\u{202f}\
                  \u{205f}\u{3000}";
    assert_eq!(trim_text(format!("{spaces}{inner}{spaces}").as_str()), inner);
    assert_eq!(trim_text(spaces), "");
    for character in spaces.chars() {
        assert_eq!(trim_text(format!("{character}").as_str()), "");
    }
}

fn item(name: &str, file_type: FileType) -> Result<DirectoryItem, String> {
    Ok(DirectoryItem { name: name.as_bytes().to_vec(), file_type: Ok(file_type) })
}

#[test]
fn a_listing_keeps_the_first_entries_in_order() {
    let mut reader =
        DirectoryReader::start(path("/w"), path("/w"), Vec::new(), 2, Ok(path("/w")))
            .ok()
            .unwrap();
    reader.accept(item("c", FileType::File)).unwrap();
    reader.accept(item(".git", FileType::Directory { canonical: None })).unwrap();
    reader.accept(item("b", FileType::File)).unwrap();
    reader.accept(item("z", FileType::Directory { canonical: Some(path("/w/z")) })).unwrap();
    let listing = reader.finish();
    assert!(listing.truncated);
    assert_eq!(listing.canonical, path("/w"));
    let names: Vec<Vec<u8>> = listing.entries.iter().map(|entry| entry.name.clone()).collect();
    assert_eq!(names, [b"z".to_vec(), b"b".to_vec()]);
    assert_eq!(listing.entries[0].kind, EntryKind::Directory);
    assert_eq!(listing.entries[1].path, path("/w/b"));
}

#[test]
fn a_name_that_was_read_twice_is_noticed() {
    let mut reader =
        DirectoryReader::start(path("/w"), path("/w//"), Vec::new(), 9, Ok(path("/w")))
            .ok()
            .unwrap();
    reader.accept(item("a", FileType::File)).unwrap();
    reader.accept(item("b", FileType::File)).unwrap();
    let listing = reader.finish();
    assert!(names_each_entry_once(&listing));
    assert_eq!(listing.entries[1].path.to_bytes(), b"/w//b");
    let mut reader =
        DirectoryReader::start(path("/w"), path("/w"), Vec::new(), 9, Ok(path("/w")))
            .ok()
            .unwrap();
    for name in ["a", "b", "a"] {
        reader.accept(item(name, FileType::File)).unwrap();
    }
    assert!(!names_each_entry_once(&reader.finish()));
}

#[test]
fn a_directory_that_may_not_be_listed_is_refused() {
    let start = |ancestors: Vec<PathBuf>, canonical: Result<PathBuf, String>| {
        DirectoryReader::start(path("/w"), path("/w/a"), ancestors, 9, canonical).err().unwrap()
    };
    assert_eq!(start(Vec::new(), Ok(path("/x"))), "symlink target escapes workspace");
    assert_eq!(
        start(vec![path("/w")], Ok(path("/w"))),
        "symlink cycle through an ancestor"
    );
    assert_eq!(
        start(Vec::new(), Err("denied".to_owned())),
        "failed to resolve /w/a: denied"
    );
}

#[test]
fn an_entry_that_cannot_be_read_fails_the_listing() {
    let mut reader =
        DirectoryReader::start(path("/w"), path("/w"), Vec::new(), 2, Ok(path("/w")))
            .ok()
            .unwrap();
    assert_eq!(reader.read_failure("denied"), "failed to read /w: denied");
    assert_eq!(
        reader.accept(Err("gone".to_owned())).unwrap_err(),
        "failed to read directory entry: gone"
    );
    let broken = DirectoryItem { name: b"a".to_vec(), file_type: Err("denied".to_owned()) };
    assert_eq!(reader.accept(Ok(broken)).unwrap_err(), "failed to inspect /w/a: denied");
}

#[test]
fn links_show_why_they_lead_nowhere() {
    let mut reader =
        DirectoryReader::start(path("/w"), path("/w/a"), vec![path("/w")], 9, Ok(path("/w/a")))
            .ok()
            .unwrap();
    let link = |target: Result<PathBuf, String>, directory: Result<bool, String>| {
        FileType::Symlink { target, directory }
    };
    reader.accept(item("1", link(Err("broken".to_owned()), Ok(false)))).unwrap();
    reader.accept(item("2", link(Ok(path("/x")), Ok(false)))).unwrap();
    reader.accept(item("3", link(Ok(path("/w")), Ok(true)))).unwrap();
    reader.accept(item("4", link(Ok(path("/w/b")), Err("denied".to_owned())))).unwrap();
    reader.accept(item("5", link(Ok(path("/w/b")), Ok(false)))).unwrap();
    reader.accept(item("6", FileType::Other)).unwrap();
    let entries = reader.finish().entries;
    let errors: Vec<Option<&str>> = entries.iter().map(|entry| entry.error.as_deref()).collect();
    assert_eq!(
        errors,
        [
            Some("broken"),
            Some("symlink target escapes workspace"),
            Some("symlink cycle through an ancestor"),
            Some("denied"),
            None,
            None,
        ]
    );
    assert_eq!(entries[4].kind, EntryKind::Symlink);
    assert_eq!(entries[5].kind, EntryKind::Other);
}

#[test]
fn output_is_kept_up_to_the_cap() {
    let mut output = CappedOutput::new(4);
    output.read_capped(b"abc");
    output.read_capped(b"de");
    output.read_capped(b"f");
    assert_eq!(output.finish(), (b"abcd".to_vec(), true));
    let mut output = CappedOutput::new(4);
    output.read_capped(b"abcd");
    assert_eq!(output.finish(), (b"abcd".to_vec(), false));
    assert!(GIT_OUTPUT_CAP_BYTES > 0);
}

fn running(progress: GitProgress) -> GitRun {
    match progress {
        GitProgress::Running(run) => run,
        GitProgress::Finished(_) => panic!("the run is over"),
    }
}

fn finished(progress: GitProgress) -> Result<Vec<ami_workbench::git::GitChange>, String> {
    match progress {
        GitProgress::Running(_) => panic!("the run goes on"),
        GitProgress::Finished(result) => result,
    }
}

fn started() -> GitRun {
    let run = GitRun::start(10);
    assert_eq!(run.action(0), GitAction::Spawn);
    running(run.next(GitEvent::Spawned(Spawn::Started), 0))
}

fn exit(success: bool) -> GitEvent {
    GitEvent::Polled(Ok(Some(ExitReport { success, text: "exit status: 1".to_owned() })))
}

fn output(stdout: bool, bytes: &[u8], truncated: bool) -> GitEvent {
    GitEvent::Output { stdout, result: Ok(Capture { bytes: bytes.to_vec(), truncated }) }
}

#[test]
fn a_snapshot_is_what_git_reports() {
    let run = started();
    assert_eq!(run.action(1), GitAction::Poll);
    let run = running(run.next(exit(true), 1));
    assert_eq!(run.action(1), GitAction::Receive(GIT_TIMEOUT - 1));
    let run = running(run.next(output(false, b"", false), 2));
    let changes = finished(run.next(output(true, b"? new\0", false), 3)).unwrap();
    assert_eq!(changes.len(), 1);
    assert_eq!(changes[0].status, GitStatus::Untracked);
}

#[test]
fn a_failed_git_says_why() {
    let run = running(started().next(exit(false), 1));
    let run = running(run.next(output(true, b"", false), 2));
    let error =
        finished(run.next(output(false, b"fatal: not a git repository\n", false), 3)).unwrap_err();
    assert_eq!(error, "fatal: not a git repository");
    let run = running(started().next(exit(false), 1));
    let run = running(run.next(output(true, b"", false), 2));
    let error = finished(run.next(output(false, b" \n", false), 3)).unwrap_err();
    assert_eq!(error, "git status exited with exit status: 1");
}

#[test]
fn a_process_that_takes_too_long_is_stopped() {
    let run = started();
    let run = running(run.next(GitEvent::Polled(Ok(None)), 1));
    assert!(matches!(run.action(1), GitAction::Sleep(_)));
    let run = running(run.next(GitEvent::Slept, 2));
    let run = running(run.next(GitEvent::Polled(Ok(None)), GIT_TIMEOUT));
    assert_eq!(run.action(GIT_TIMEOUT), GitAction::Stop);
    let run = running(run.next(GitEvent::Stopped(Ok(())), GIT_TIMEOUT));
    assert_eq!(run.action(GIT_TIMEOUT), GitAction::Reap);
    let reaped = ExitReport { success: false, text: "signal: 9".to_owned() };
    let run = running(run.next(GitEvent::Reaped(Ok(reaped)), GIT_TIMEOUT));
    let run = running(run.next(output(true, b"", false), GIT_TIMEOUT));
    let error = finished(run.next(output(false, b"", false), GIT_TIMEOUT)).unwrap_err();
    assert_eq!(error, "git status timed out after 5s");
}

#[test]
fn output_over_the_cap_is_no_snapshot() {
    let run = running(started().next(exit(true), 1));
    let run = running(run.next(output(false, b"", false), 2));
    let error = finished(run.next(output(true, b"? new\0", true), 3)).unwrap_err();
    assert_eq!(error, format!("git status output exceeded {GIT_OUTPUT_CAP_BYTES} bytes"));
}

#[test]
fn a_git_that_does_not_start_says_why() {
    let fail = |spawn: Spawn| finished(GitRun::start(1).next(GitEvent::Spawned(spawn), 0));
    assert_eq!(
        fail(Spawn::Failed("no git".to_owned())).unwrap_err(),
        "failed to run git status: no git"
    );
    assert_eq!(fail(Spawn::NoStdout).unwrap_err(), "failed to capture git status output");
    assert_eq!(fail(Spawn::NoStderr).unwrap_err(), "failed to capture git status errors");
}

#[test]
fn pipes_that_stay_open_are_given_up() {
    let run = running(started().next(exit(true), 1));
    let run = running(run.next(GitEvent::TimedOut, 1 + PIPE_GRACE));
    assert_eq!(run.action(1 + PIPE_GRACE), GitAction::Stop);
    let run = running(run.next(GitEvent::Stopped(Ok(())), 1 + PIPE_GRACE));
    assert_eq!(run.action(1 + PIPE_GRACE), GitAction::Receive(PIPE_GRACE));
    assert_eq!(
        finished(run.next(GitEvent::TimedOut, 1 + 2 * PIPE_GRACE)).unwrap_err(),
        "git status pipes remained open after process-group termination"
    );
}

#[test]
fn every_way_a_git_run_fails_is_told() {
    let error = || Err("denied".to_owned());
    let late = || running(started().next(GitEvent::Polled(Ok(None)), GIT_TIMEOUT));
    assert_eq!(
        finished(late().next(GitEvent::Stopped(error()), GIT_TIMEOUT)).unwrap_err(),
        "failed to stop timed-out git status: denied"
    );
    let stopped = running(late().next(GitEvent::Stopped(Ok(())), GIT_TIMEOUT));
    assert_eq!(
        finished(stopped.next(GitEvent::Reaped(Err("denied".to_owned())), GIT_TIMEOUT))
            .unwrap_err(),
        "failed to reap timed-out git status: denied"
    );
    let lost = running(started().next(GitEvent::Polled(Err("denied".to_owned())), 1));
    assert_eq!(lost.action(1), GitAction::StopAndReap);
    assert_eq!(
        finished(lost.next(GitEvent::Stopped(Ok(())), 1)).unwrap_err(),
        "failed to wait for git status: denied"
    );
    let read = || running(started().next(exit(true), 1));
    assert_eq!(
        finished(read().next(GitEvent::Disconnected, 2)).unwrap_err(),
        "git status pipe readers disconnected"
    );
    let holders = running(read().next(GitEvent::TimedOut, GIT_TIMEOUT));
    assert_eq!(
        finished(holders.next(GitEvent::Stopped(error()), GIT_TIMEOUT)).unwrap_err(),
        "failed to stop git status pipe holders: denied"
    );
    let broken = |stdout: bool| GitEvent::Output { stdout, result: Err("denied".to_owned()) };
    let run = running(read().next(output(false, b"", false), 2));
    assert_eq!(
        finished(run.next(broken(true), 2)).unwrap_err(),
        "failed to read git status stdout: denied"
    );
    let run = running(read().next(output(true, b"", false), 2));
    assert_eq!(
        finished(run.next(broken(false), 2)).unwrap_err(),
        "failed to read git status stderr: denied"
    );
}
