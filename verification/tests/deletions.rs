use std::collections::BTreeMap;

use windows_cleaner::attributes::{
    clear_readonly, clear_readonly_recursive, clear_readonly_with_metadata, ClearReadonly,
    ClearReply, ClearRequest,
};
use windows_cleaner::cli::{Cli, DeleteStrategy};
use windows_cleaner::config::CleanerConfig;
use windows_cleaner::delete::{collect_path_details, DeleteError, PathDeleteError, RunOutcome};
use windows_cleaner::fault::{ErrorKind, FileMeta, IoError};
use windows_cleaner::platform::Platform;
use windows_cleaner::removal::{
    delete_directory_link, delete_directory_node, delete_directory_tree_native, delete_file,
    removal_of, Removal, RemovalReply, RemovalRequest,
};
use windows_cleaner::repair::{read_dir_with_repair, OpenReply, OpenRequest};
use windows_cleaner::run::{failure_entries, run, DeletionRun, RunStart};
use windows_cleaner::walk::{delete_path, DeletePath, WalkReply, WalkRequest};

/// A disk in memory that refuses like Windows does: read-only entries stay, and
/// so do directories that hold something.
struct Disk {
    entries: BTreeMap<String, FileMeta>,
    /// Calls that are refused, each once.
    refusals: Vec<(String, IoError)>,
    repairs_work: bool,
    log: Vec<String>,
}

fn failure(kind: ErrorKind, code: i32) -> IoError {
    IoError { kind, os_code: Some(code), text: format!("os error {code}") }
}

fn not_found() -> IoError {
    failure(ErrorKind::NotFound, 2)
}

fn denied() -> IoError {
    failure(ErrorKind::PermissionDenied, 5)
}

fn busy() -> IoError {
    failure(ErrorKind::Other, 32)
}

fn not_empty() -> IoError {
    failure(ErrorKind::Other, 145)
}

const FILE: FileMeta =
    FileMeta { is_dir: false, is_file: true, is_symlink: false, readonly: false, attributes: 0x20 };
const DIR: FileMeta =
    FileMeta { is_dir: true, is_file: false, is_symlink: false, readonly: false, attributes: 0x10 };
const JUNCTION: FileMeta = FileMeta { attributes: 0x410, ..DIR };

impl Disk {
    fn with(entries: &[(&str, FileMeta)]) -> Disk {
        Disk {
            entries: entries.iter().map(|(path, meta)| (path.to_string(), *meta)).collect(),
            refusals: Vec::new(),
            repairs_work: false,
            log: Vec::new(),
        }
    }

    fn refuse(&mut self, call: &str, err: IoError) {
        self.refusals.push((call.to_string(), err));
    }

    fn holds(&self, path: &str) -> bool {
        self.entries.contains_key(path)
    }

    fn call(&mut self, call: String) -> Result<(), IoError> {
        self.log.push(call.clone());
        match self.refusals.iter().position(|(refused, _)| *refused == call) {
            Some(i) => Err(self.refusals.remove(i).1),
            None => Ok(()),
        }
    }

    fn metadata(&mut self, path: &str) -> Result<FileMeta, IoError> {
        self.call(format!("look {path}"))?;
        self.entries.get(path).copied().ok_or_else(not_found)
    }

    fn children(&self, path: &str) -> Vec<String> {
        let start = format!("{path}\\");
        self.entries
            .keys()
            .filter(|key| key.starts_with(&start) && !key[start.len()..].contains('\\'))
            .cloned()
            .collect()
    }

    fn list(&mut self, path: &str) -> Result<Vec<String>, IoError> {
        self.call(format!("list {path}"))?;
        Ok(self.children(path))
    }

    fn remove_one(&mut self, path: &str) -> Result<(), IoError> {
        let meta = self.entries.get(path).copied().ok_or_else(not_found)?;
        if meta.readonly {
            return Err(denied());
        }
        if !self.children(path).is_empty() {
            return Err(not_empty());
        }
        self.entries.remove(path);
        Ok(())
    }

    fn remove_file(&mut self, path: &str) -> Result<(), IoError> {
        self.call(format!("remove_file {path}"))?;
        self.remove_one(path)
    }

    fn remove_dir(&mut self, path: &str) -> Result<(), IoError> {
        self.call(format!("remove_dir {path}"))?;
        self.remove_one(path)
    }

    fn remove_dir_all(&mut self, path: &str) -> Result<(), IoError> {
        self.call(format!("remove_dir_all {path}"))?;
        self.remove_tree(path)
    }

    fn remove_tree(&mut self, path: &str) -> Result<(), IoError> {
        for child in self.children(path) {
            self.remove_tree(&child)?;
        }
        self.remove_one(path)
    }

    fn make_writable(&mut self, path: &str) -> Result<(), IoError> {
        self.call(format!("make_writable {path}"))?;
        let meta = self.entries.get_mut(path).ok_or_else(not_found)?;
        meta.readonly = false;
        Ok(())
    }
}

fn clear(disk: &mut Disk, mut clearing: ClearReadonly) -> Result<(), IoError> {
    let mut open: Vec<Vec<String>> = Vec::new();
    while let Some(request) = clearing.request() {
        let reply = match request {
            ClearRequest::SymlinkMetadata { path } => ClearReply::Metadata(disk.metadata(&path)),
            ClearRequest::MakeWritable { path } => ClearReply::Written(disk.make_writable(&path)),
            ClearRequest::ReadDir { path } => ClearReply::Opened(disk.list(&path).map(|mut names| {
                names.reverse();
                open.push(names);
            })),
            ClearRequest::NextEntry => {
                let next = open.last_mut().expect("a listing is open").pop();
                if next.is_none() {
                    open.pop();
                }
                ClearReply::Entry(next.map(Ok))
            }
        };
        clearing.resume(reply);
    }
    clearing.result().expect("the clearing is finished")
}

fn remove(disk: &mut Disk, mut removal: Removal) -> Result<(), IoError> {
    while let Some(request) = removal.request() {
        let reply = match request {
            RemovalRequest::RemoveDirAll { path } => {
                RemovalReply::Outcome(disk.remove_dir_all(&path))
            }
            RemovalRequest::RemoveDir { path } => RemovalReply::Outcome(disk.remove_dir(&path)),
            RemovalRequest::RemoveFile { path } => RemovalReply::Outcome(disk.remove_file(&path)),
            RemovalRequest::ClearReadonly { path } => {
                RemovalReply::Outcome(clear(disk, clear_readonly(Platform::Windows, path)))
            }
            RemovalRequest::ClearReadonlyRecursive { path } => {
                RemovalReply::Outcome(clear(disk, clear_readonly_recursive(Platform::Windows, path)))
            }
            RemovalRequest::RepairPermissions { path, recursive } => {
                disk.log.push(format!("repair {path} {recursive}"));
                RemovalReply::Repaired(disk.repairs_work)
            }
            RemovalRequest::Sleep { millis } => {
                disk.log.push(format!("sleep {millis}"));
                RemovalReply::Slept
            }
        };
        removal = removal.resume(reply);
    }
    removal.result().expect("the removal is finished")
}

fn open_dir(disk: &mut Disk, path: String, repair: bool) -> Result<Vec<String>, IoError> {
    let mut opening = read_dir_with_repair(path, repair);
    let mut names = Vec::new();
    while let Some(request) = opening.request() {
        let reply = match request {
            OpenRequest::ReadDir { path } => OpenReply::Read(disk.list(&path).map(|found| {
                names = found;
            })),
            OpenRequest::RepairPermissions { path, recursive } => {
                disk.log.push(format!("repair {path} {recursive}"));
                OpenReply::Repaired(disk.repairs_work)
            }
        };
        opening = opening.resume(reply);
    }
    opening.result().expect("the opening is finished").map(|()| names)
}

fn walk(disk: &mut Disk, mut deletion: DeletePath) -> Vec<PathDeleteError> {
    let mut open: Vec<Vec<String>> = Vec::new();
    while let Some(request) = deletion.request() {
        let reply = match request {
            WalkRequest::SymlinkMetadata { path } => WalkReply::Metadata(disk.metadata(&path)),
            WalkRequest::OpenDir { path, repair_permissions } => {
                WalkReply::Opened(open_dir(disk, path, repair_permissions).map(|mut names| {
                    names.reverse();
                    open.push(names);
                }))
            }
            WalkRequest::NextEntry => {
                let next = open.last_mut().expect("a listing is open").pop();
                if next.is_none() {
                    open.pop();
                }
                WalkReply::Entry(next.map(|path| match path.strip_suffix("\\!") {
                    Some(_) => Err(denied()),
                    None => Ok(path),
                }))
            }
            WalkRequest::Remove { path, kind, repair_permissions } => {
                WalkReply::Removed(remove(disk, removal_of(path, kind, repair_permissions)))
            }
        };
        deletion.resume(reply);
    }
    deletion.into_issues()
}

fn delete(
    disk: &mut Disk,
    path: &str,
    dry_run: bool,
    repair: bool,
    strategy: DeleteStrategy,
) -> Vec<PathDeleteError> {
    walk(disk, delete_path(Platform::Windows, path.to_string(), dry_run, repair, strategy))
}

fn reported(issues: &[PathDeleteError]) -> Vec<(&str, String)> {
    issues.iter().map(|issue| (issue.failed_path.as_str(), issue.error.message())).collect()
}

fn run_all(disk: &mut Disk, deletions: &DeletionRun) -> RunOutcome {
    let mut tally = deletions.tally();
    let mut index = 0;
    while let Some(deletion) = deletions.deletion(Platform::Windows, index) {
        let issues = walk(disk, deletion);
        let details: Vec<String> = issues
            .iter()
            .map(|issue| {
                collect_path_details(Platform::Windows, &disk.metadata(&issue.failed_path))
            })
            .collect();
        tally.record(failure_entries(&deletions.paths[index], &issues, &details));
        index += 1;
    }
    tally.outcome()
}

fn cli(config: &str, paths: &[&str]) -> Cli {
    Cli {
        command: None,
        config: config.to_string(),
        paths: paths.iter().map(|path| path.to_string()).collect(),
        threads: Some(1),
        no_progress: true,
        dry_run: false,
        delete_strategy: DeleteStrategy::Native,
        repair_permissions: false,
    }
}

#[test]
fn delete_file_works() {
    let mut disk = Disk::with(&[("C:\\t", DIR), ("C:\\t\\a.tmp", FILE)]);
    let issues = delete(&mut disk, "C:\\t\\a.tmp", false, false, DeleteStrategy::Native);
    assert!(issues.is_empty());
    assert!(!disk.holds("C:\\t\\a.tmp"));
}

#[test]
fn delete_directory_works() {
    let mut disk = Disk::with(&[
        ("C:\\t", DIR),
        ("C:\\t\\nested", DIR),
        ("C:\\t\\nested\\child.txt", FILE),
    ]);
    let issues = delete(&mut disk, "C:\\t\\nested", false, false, DeleteStrategy::Native);
    assert!(issues.is_empty());
    assert!(!disk.holds("C:\\t\\nested"));
}

#[test]
fn dry_run_does_not_delete() {
    let mut disk = Disk::with(&[("C:\\t", DIR), ("C:\\t\\stay.tmp", FILE)]);
    let issues = delete(&mut disk, "C:\\t\\stay.tmp", true, false, DeleteStrategy::Native);
    assert!(issues.is_empty());
    assert!(disk.holds("C:\\t\\stay.tmp"));
    assert_eq!(disk.log, ["look C:\\t\\stay.tmp"]);
}

#[test]
fn delete_readonly_file_works() {
    let mut disk = Disk::with(&[
        ("C:\\t", DIR),
        ("C:\\t\\readonly.tmp", FileMeta { readonly: true, ..FILE }),
    ]);
    let issues = delete(&mut disk, "C:\\t\\readonly.tmp", false, false, DeleteStrategy::Native);
    assert!(issues.is_empty());
    assert!(!disk.holds("C:\\t\\readonly.tmp"));
    assert_eq!(
        disk.log,
        [
            "look C:\\t\\readonly.tmp",
            "remove_file C:\\t\\readonly.tmp",
            "look C:\\t\\readonly.tmp",
            "make_writable C:\\t\\readonly.tmp",
            "sleep 50",
            "remove_file C:\\t\\readonly.tmp",
        ]
    );
}

#[test]
fn missing_path_returns_missing_error() {
    let mut disk = Disk::with(&[("C:\\t", DIR)]);
    let issues = delete(&mut disk, "C:\\t\\missing.tmp", false, false, DeleteStrategy::Native);
    assert_eq!(issues.len(), 1);
    assert!(matches!(&issues[0].error, DeleteError::Missing));
}

#[test]
fn directory_missing_returns_missing_error() {
    let mut disk = Disk::with(&[("C:\\t", DIR)]);
    let issues = delete(&mut disk, "C:\\t\\missing-dir", false, false, DeleteStrategy::Native);
    assert_eq!(issues.len(), 1);
    assert!(matches!(&issues[0].error, DeleteError::Missing));
}

#[test]
fn unreadable_path_is_reported_as_such() {
    let mut disk = Disk::with(&[("C:\\t", DIR)]);
    disk.refuse("look C:\\t", denied());
    let issues = delete(&mut disk, "C:\\t", true, false, DeleteStrategy::Native);
    assert_eq!(
        reported(&issues),
        [("C:\\t", "failed to read metadata: os error 5".to_string())]
    );
}

#[test]
fn run_handles_empty_config() {
    let cli = cli("cleaner.toml", &[]);
    assert!(matches!(run(&cli), RunStart::NeedsConfig { path } if path == "cleaner.toml"));
    let deletions = DeletionRun::configured(&cli, CleanerConfig { paths: Vec::new() });
    let outcome = run_all(&mut Disk::with(&[]), &deletions);
    assert_eq!(outcome.total, 0);
    assert_eq!(outcome.failed, 0);
}

#[test]
fn run_records_failed_paths() {
    let existing = "C:\\t\\exists.tmp";
    let missing = "C:\\t\\missing.tmp";
    let mut disk = Disk::with(&[("C:\\t", DIR), (existing, FILE)]);
    let cli = cli("cleaner.toml", &[]);
    let config = CleanerConfig { paths: vec![existing.to_string(), missing.to_string()] };
    let deletions = DeletionRun::configured(&cli, config);
    let outcome = run_all(&mut disk, &deletions);
    assert_eq!(outcome.total, 2);
    assert_eq!(outcome.succeeded, 1);
    assert_eq!(outcome.failed, 1);
    assert_eq!(outcome.failures.len(), 1);
    assert_eq!(outcome.failures[0].path, missing);
    assert_eq!(outcome.failures[0].failed_path, missing);
    assert!(!outcome.failures[0].path_details.is_empty());
    assert_eq!(outcome.failures[0].error, "path does not exist");
    assert_eq!(outcome.failures[0].os_code, None);
}

#[test]
fn run_with_direct_paths_ignores_missing_config() {
    let existing = "C:\\t\\direct.tmp";
    let mut disk = Disk::with(&[("C:\\t", DIR), (existing, FILE)]);
    let cli = cli("C:\\t\\missing.toml", &[existing]);
    let start = run(&cli);
    let deletions = match start {
        RunStart::Ready(deletions) => deletions,
        RunStart::NeedsConfig { .. } => panic!("the paths are on the command line"),
    };
    let outcome = run_all(&mut disk, &deletions);
    assert_eq!(outcome.total, 1);
    assert_eq!(outcome.succeeded, 1);
    assert_eq!(outcome.failed, 0);
    assert!(!disk.holds(existing));
}

#[test]
fn recursive_deletion_takes_content_first() {
    let mut disk = Disk::with(&[
        ("C:\\d", DIR),
        ("C:\\d\\a", FILE),
        ("C:\\d\\s", DIR),
        ("C:\\d\\s\\b", FILE),
        ("C:\\d\\z", JUNCTION),
    ]);
    let issues = delete(&mut disk, "C:\\d", false, false, DeleteStrategy::Recursive);
    assert!(issues.is_empty());
    assert!(disk.entries.is_empty());
    assert_eq!(
        disk.log,
        [
            "look C:\\d",
            "list C:\\d",
            "look C:\\d\\a",
            "remove_file C:\\d\\a",
            "look C:\\d\\s",
            "list C:\\d\\s",
            "look C:\\d\\s\\b",
            "remove_file C:\\d\\s\\b",
            "remove_dir C:\\d\\s",
            "look C:\\d\\z",
            "remove_dir C:\\d\\z",
            "remove_dir C:\\d",
        ]
    );
}

#[test]
fn recursive_deletion_names_what_stays() {
    let mut disk = Disk::with(&[
        ("C:\\d", DIR),
        ("C:\\d\\a", FILE),
        ("C:\\d\\m", FILE),
        ("C:\\d\\s", DIR),
        ("C:\\d\\s\\b", FILE),
    ]);
    disk.refuse("remove_file C:\\d\\s\\b", failure(ErrorKind::Other, 1));
    disk.refuse("look C:\\d\\m", not_found());
    let issues = delete(&mut disk, "C:\\d", false, false, DeleteStrategy::Recursive);
    assert_eq!(
        reported(&issues),
        [
            ("C:\\d\\m", "path does not exist".to_string()),
            ("C:\\d\\s\\b", "failed to delete file: os error 1".to_string()),
        ]
    );
    assert!(!disk.holds("C:\\d\\a"));
    assert!(disk.holds("C:\\d\\s"));
}

#[test]
fn directory_with_a_reason_of_its_own_is_named_too() {
    let mut disk = Disk::with(&[("C:\\d", DIR), ("C:\\d\\a", FILE)]);
    disk.refuse("remove_file C:\\d\\a", failure(ErrorKind::Other, 1));
    disk.refuse("remove_dir C:\\d", failure(ErrorKind::Other, 3));
    let issues = delete(&mut disk, "C:\\d", false, false, DeleteStrategy::Recursive);
    assert_eq!(
        reported(&issues),
        [
            ("C:\\d\\a", "failed to delete file: os error 1".to_string()),
            ("C:\\d", "failed to delete directory: os error 3".to_string()),
        ]
    );
}

#[test]
fn not_empty_is_reported_where_nothing_else_stayed() {
    let mut disk = Disk::with(&[("C:\\d", DIR)]);
    for _ in 0..5 {
        disk.refuse("remove_dir C:\\d", not_empty());
    }
    let issues = delete(&mut disk, "C:\\d", false, false, DeleteStrategy::Recursive);
    assert_eq!(
        reported(&issues),
        [("C:\\d", "failed to delete directory: os error 145".to_string())]
    );
}

#[test]
fn unopened_and_unlisted_entries_are_named_by_their_directory() {
    let mut disk = Disk::with(&[("C:\\d", DIR), ("C:\\d\\!", FILE), ("C:\\d\\s", DIR)]);
    disk.refuse("list C:\\d\\s", failure(ErrorKind::Other, 3));
    let issues = delete(&mut disk, "C:\\d", false, false, DeleteStrategy::Recursive);
    assert_eq!(
        reported(&issues),
        [
            ("C:\\d", "failed to delete directory: os error 5".to_string()),
            ("C:\\d\\s", "failed to delete directory: os error 3".to_string()),
        ]
    );
}

#[test]
fn links_are_removed_and_not_entered() {
    let mut disk = Disk::with(&[("C:\\l", JUNCTION)]);
    for strategy in [DeleteStrategy::Native, DeleteStrategy::Recursive] {
        disk.entries.insert("C:\\l".to_string(), JUNCTION);
        disk.log.clear();
        assert!(delete(&mut disk, "C:\\l", false, false, strategy).is_empty());
        assert_eq!(disk.log, ["look C:\\l", "remove_dir C:\\l"]);
    }
}

#[test]
fn removal_gives_up_after_five_tries() {
    let mut disk = Disk::with(&[("C:\\f", FILE)]);
    for _ in 0..5 {
        disk.refuse("remove_file C:\\f", busy());
    }
    let err = remove(&mut disk, delete_file("C:\\f".to_string(), false, false))
        .expect_err("it is busy all the time");
    assert_eq!(err.raw_os_error(), Some(32));
    assert_eq!(
        disk.log,
        [
            "remove_file C:\\f",
            "sleep 50",
            "remove_file C:\\f",
            "sleep 100",
            "remove_file C:\\f",
            "sleep 200",
            "remove_file C:\\f",
            "sleep 400",
            "remove_file C:\\f",
        ]
    );
}

#[test]
fn removal_ends_with_the_first_try_that_works() {
    let mut disk = Disk::with(&[("C:\\f", FILE)]);
    disk.refuse("remove_file C:\\f", busy());
    assert!(remove(&mut disk, delete_file("C:\\f".to_string(), false, false)).is_ok());
    assert_eq!(disk.log, ["remove_file C:\\f", "sleep 50", "remove_file C:\\f"]);
}

#[test]
fn removal_does_not_repeat_what_cannot_be_mended() {
    let mut disk = Disk::with(&[("C:\\f", FILE)]);
    disk.refuse("remove_file C:\\f", failure(ErrorKind::Other, 3));
    assert!(remove(&mut disk, delete_file("C:\\f".to_string(), false, true)).is_err());
    assert_eq!(disk.log, ["remove_file C:\\f"]);
}

#[test]
fn what_is_gone_counts_as_removed() {
    let mut disk = Disk::with(&[]);
    for removal in [
        delete_directory_tree_native("C:\\x".to_string(), false),
        delete_directory_link("C:\\x".to_string(), false),
        delete_directory_node("C:\\x".to_string(), false),
        delete_file("C:\\x".to_string(), false, false),
    ] {
        assert!(remove(&mut disk, removal).is_ok());
    }
}

#[test]
fn tree_is_made_writable_once() {
    let mut disk = Disk::with(&[
        ("C:\\d", DIR),
        ("C:\\d\\a", FileMeta { readonly: true, ..FILE }),
        ("C:\\d\\j", JUNCTION),
        ("C:\\d\\s", DIR),
        ("C:\\d\\s\\b", FileMeta { readonly: true, ..FILE }),
    ]);
    assert!(remove(&mut disk, delete_directory_tree_native("C:\\d".to_string(), false)).is_ok());
    assert!(disk.entries.is_empty());
    assert_eq!(
        disk.log,
        [
            "remove_dir_all C:\\d",
            "look C:\\d",
            "list C:\\d",
            "look C:\\d\\a",
            "make_writable C:\\d\\a",
            "look C:\\d\\j",
            "look C:\\d\\s",
            "list C:\\d\\s",
            "look C:\\d\\s\\b",
            "make_writable C:\\d\\s\\b",
            "sleep 50",
            "remove_dir_all C:\\d",
        ]
    );
}

#[test]
fn tree_removal_goes_on_where_clearing_fails() {
    let mut disk = Disk::with(&[("C:\\d", DIR)]);
    disk.refuse("remove_dir_all C:\\d", denied());
    disk.refuse("look C:\\d", busy());
    assert!(remove(&mut disk, delete_directory_tree_native("C:\\d".to_string(), false)).is_ok());
    assert_eq!(
        disk.log,
        ["remove_dir_all C:\\d", "look C:\\d", "sleep 50", "remove_dir_all C:\\d"]
    );
}

#[test]
fn file_removal_ends_where_clearing_fails() {
    let mut disk = Disk::with(&[("C:\\f", FileMeta { readonly: true, ..FILE })]);
    disk.refuse("look C:\\f", failure(ErrorKind::Other, 3));
    let err = remove(&mut disk, delete_file("C:\\f".to_string(), true, true))
        .expect_err("it cannot be cleared");
    assert_eq!(err.raw_os_error(), Some(3));
    assert_eq!(disk.log, ["remove_file C:\\f", "look C:\\f"]);
}

#[test]
fn permissions_are_repaired_once() {
    let mut disk = Disk::with(&[("C:\\f", FILE)]);
    disk.repairs_work = true;
    disk.refuse("remove_file C:\\f", denied());
    disk.refuse("remove_file C:\\f", denied());
    assert!(remove(&mut disk, delete_file("C:\\f".to_string(), false, true)).is_ok());
    assert_eq!(
        disk.log,
        [
            "remove_file C:\\f",
            "repair C:\\f false",
            "sleep 50",
            "remove_file C:\\f",
            "sleep 100",
            "remove_file C:\\f",
        ]
    );
}

#[test]
fn failed_repairs_are_tried_again() {
    let mut disk = Disk::with(&[("C:\\d", DIR)]);
    disk.refuse("remove_dir_all C:\\d", denied());
    disk.refuse("remove_dir_all C:\\d", denied());
    assert!(remove(&mut disk, delete_directory_tree_native("C:\\d".to_string(), true)).is_ok());
    assert_eq!(
        disk.log,
        [
            "remove_dir_all C:\\d",
            "look C:\\d",
            "list C:\\d",
            "repair C:\\d true",
            "sleep 50",
            "remove_dir_all C:\\d",
            "repair C:\\d true",
            "sleep 100",
            "remove_dir_all C:\\d",
        ]
    );
}

#[test]
fn listings_are_repaired_on_the_way() {
    let mut disk = Disk::with(&[("C:\\d", DIR), ("C:\\d\\a", FILE)]);
    disk.repairs_work = true;
    disk.refuse("list C:\\d", denied());
    let issues = delete(&mut disk, "C:\\d", false, true, DeleteStrategy::Recursive);
    assert!(issues.is_empty());
    assert!(disk.entries.is_empty());
    assert_eq!(
        disk.log[..4],
        ["look C:\\d", "list C:\\d", "repair C:\\d true", "list C:\\d"]
    );
}

#[test]
fn clearing_stops_at_the_first_failure() {
    let mut disk = Disk::with(&[
        ("C:\\d", FileMeta { readonly: true, ..DIR }),
        ("C:\\d\\a", FileMeta { readonly: true, ..FILE }),
        ("C:\\d\\b", FileMeta { readonly: true, ..FILE }),
    ]);
    disk.refuse("make_writable C:\\d\\a", denied());
    let clearing = clear_readonly_recursive(Platform::Windows, "C:\\d".to_string());
    let err = clear(&mut disk, clearing).expect_err("one cannot be cleared");
    assert_eq!(err.raw_os_error(), Some(5));
    assert!(!disk.entries["C:\\d"].readonly);
    assert!(disk.entries["C:\\d\\b"].readonly);
}

#[test]
fn clearing_one_entry_leaves_its_content() {
    let mut disk = Disk::with(&[
        ("C:\\d", FileMeta { readonly: true, ..DIR }),
        ("C:\\d\\a", FileMeta { readonly: true, ..FILE }),
    ]);
    assert!(clear(&mut disk, clear_readonly(Platform::Windows, "C:\\d".to_string())).is_ok());
    assert!(!disk.entries["C:\\d"].readonly);
    assert!(disk.entries["C:\\d\\a"].readonly);
    assert!(clear_readonly_with_metadata(&disk.entries["C:\\d\\a"]));
    assert!(!clear_readonly_with_metadata(&disk.entries["C:\\d"]));
}
