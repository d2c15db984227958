use std::collections::BTreeMap;

use windows_cleaner::batch::{Batch, BatchRequest, MoveOutcome, MoveRun};
use windows_cleaner::cli::{Cli, DeleteStrategy};
use windows_cleaner::config::MoveConfig;
use windows_cleaner::copy::{copy_dir_recursive, CopyReply, CopyRequest, DirEntry};
use windows_cleaner::fault::{CommandOutput, ErrorKind, ErrorReport, FileMeta, IoError};
use windows_cleaner::link::{
    move_and_link_one_path, next_move, run_move_link, summary_text, LinkMove, LinkReply,
    LinkRequest, MoveFailureEntry,
};
use windows_cleaner::path::file_name;
use windows_cleaner::platform::Platform;
use windows_cleaner::rename::{
    move_one_with_windows_commands, next_move as next_command_move, run_move,
    summary_text as command_summary_text, MoveBackend, MoveFailureEntry as CommandFailureEntry,
    MoveOne, MoveOneReply, MoveOneRequest, MoveSuccess,
};
use windows_cleaner::transfer::{
    move_directory_with_fallback, move_file_with_fallback, move_path_with_fallback, MovePath,
    MoveRequest, SourceKind,
};

/// What is at a path of a disk in memory.
#[derive(Debug, Clone, PartialEq)]
enum Node {
    File,
    Dir,
    Link(String),
    Pipe,
}

/// A disk in memory.
struct Disk {
    nodes: BTreeMap<String, Node>,
    /// Calls that are refused, each once.
    refusals: Vec<(String, IoError)>,
    log: Vec<String>,
}

fn failure(code: i32) -> IoError {
    IoError { kind: ErrorKind::Other, os_code: Some(code), text: format!("os error {code}") }
}

fn not_found() -> IoError {
    IoError { kind: ErrorKind::NotFound, os_code: Some(2), text: "not found".to_string() }
}

fn meta_of(node: &Node) -> FileMeta {
    FileMeta {
        is_dir: *node == Node::Dir,
        is_file: *node == Node::File,
        is_symlink: matches!(node, Node::Link(_)),
        readonly: false,
        attributes: 0,
    }
}

impl Disk {
    fn with(nodes: &[(&str, Node)]) -> Disk {
        Disk {
            nodes: nodes.iter().map(|(path, node)| (path.to_string(), node.clone())).collect(),
            refusals: Vec::new(),
            log: Vec::new(),
        }
    }

    fn refuse(&mut self, call: &str, err: IoError) {
        self.refusals.push((call.to_string(), err));
    }

    fn holds(&self, path: &str) -> bool {
        self.nodes.contains_key(path)
    }

    fn call(&mut self, call: String) -> Result<(), IoError> {
        self.log.push(call.clone());
        match self.refusals.iter().position(|(refused, _)| *refused == call) {
            Some(i) => Err(self.refusals.remove(i).1),
            None => Ok(()),
        }
    }

    fn below(&self, path: &str) -> Vec<String> {
        let start = format!("{path}/");
        self.nodes.keys().filter(|key| key.starts_with(&start)).cloned().collect()
    }

    fn rename(&mut self, from: &str, to: &str) -> Result<(), IoError> {
        self.call(format!("rename {from} {to}"))?;
        let node = self.nodes.remove(from).ok_or_else(not_found)?;
        for inner in self.below(from) {
            let moved = self.nodes.remove(&inner).expect("it is listed");
            self.nodes.insert(format!("{to}{}", &inner[from.len()..]), moved);
        }
        self.nodes.insert(to.to_string(), node);
        Ok(())
    }

    fn copy_file(&mut self, from: &str, to: &str) -> Result<(), IoError> {
        self.call(format!("copy {from} {to}"))?;
        let node = self.nodes.get(from).cloned().ok_or_else(not_found)?;
        self.nodes.insert(to.to_string(), node);
        Ok(())
    }

    fn create_dir_all(&mut self, path: &str) -> Result<(), IoError> {
        self.call(format!("create {path}"))?;
        self.nodes.insert(path.to_string(), Node::Dir);
        Ok(())
    }

    fn symlink(&mut self, target: &str, link: &str) -> Result<(), IoError> {
        self.call(format!("symlink {target} {link}"))?;
        self.nodes.insert(link.to_string(), Node::Link(target.to_string()));
        Ok(())
    }

    fn remove(&mut self, path: &str) -> Result<(), IoError> {
        self.call(format!("remove {path}"))?;
        for inner in self.below(path) {
            self.nodes.remove(&inner);
        }
        self.nodes.remove(path).map(|_| ()).ok_or_else(not_found)
    }
}

fn copy_tree(disk: &mut Disk, platform: Platform, from: &str, to: &str) -> Result<(), IoError> {
    let mut copy = copy_dir_recursive(platform, from.to_string(), to.to_string());
    let mut open: Vec<Vec<String>> = Vec::new();
    while let Some(request) = copy.request() {
        let reply = match request {
            CopyRequest::CreateDirAll { path } => CopyReply::Done(disk.create_dir_all(&path)),
            CopyRequest::ReadDir { path } => {
                let mut names: Vec<String> = disk
                    .below(&path)
                    .into_iter()
                    .filter(|inner| !inner[path.len() + 1..].contains('/'))
                    .collect();
                names.reverse();
                open.push(names);
                CopyReply::Done(disk.call(format!("list {path}")))
            }
            CopyRequest::NextEntry => {
                let next = open.last_mut().expect("a listing is open").pop();
                if next.is_none() {
                    open.pop();
                }
                CopyReply::Entry(next.map(|path| {
                    let name = file_name(Platform::Unix, &path).expect("entries have names");
                    disk.call(format!("entry {path}")).map(|()| DirEntry { path, name })
                }))
            }
            CopyRequest::SymlinkMetadata { path } => CopyReply::Metadata(
                disk.call(format!("look {path}"))
                    .and_then(|()| disk.nodes.get(&path).map(meta_of).ok_or_else(not_found)),
            ),
            CopyRequest::CopyFile { from, to } => CopyReply::Done(disk.copy_file(&from, &to)),
            CopyRequest::ReadLink { path } => {
                let target = match disk.nodes.get(&path) {
                    Some(Node::Link(target)) => Ok(target.clone()),
                    _ => Err(not_found()),
                };
                CopyReply::LinkTarget(disk.call(format!("read {path}")).and(target))
            }
            CopyRequest::IsDir { path } => {
                disk.log.push(format!("is_dir {path}"));
                CopyReply::IsDir(disk.nodes.get(&path) == Some(&Node::Dir))
            }
            CopyRequest::Symlink(symlink) => {
                CopyReply::Done(disk.symlink(&symlink.target, &symlink.link))
            }
        };
        copy.resume(reply);
    }
    copy.result().expect("the copy is finished")
}

fn transfer(disk: &mut Disk, mut moving: MovePath) -> Result<(), IoError> {
    while let Some(request) = moving.request() {
        let reply = match request {
            MoveRequest::Rename { from, to } => disk.rename(&from, &to),
            MoveRequest::CopyFile { from, to } => disk.copy_file(&from, &to),
            MoveRequest::CopyTree { from, to } => copy_tree(disk, Platform::Unix, &from, &to),
            MoveRequest::RemoveFile { path } => disk.remove(&path),
            MoveRequest::RemoveDirAll { path } => disk.remove(&path),
        };
        moving = moving.resume(reply);
    }
    moving.result().expect("the move is finished")
}

fn move_and_link(
    disk: &mut Disk,
    platform: Platform,
    source: &str,
    target_dir: &str,
    dry_run: bool,
) -> Result<String, ErrorReport> {
    let mut moving = move_and_link_one_path(platform, source.to_string(), target_dir, dry_run);
    drive(disk, &mut moving);
    moving.result().expect("the move is finished")
}

fn drive(disk: &mut Disk, moving: &mut LinkMove) {
    while let Some(request) = moving.request() {
        let reply = match request {
            LinkRequest::Metadata { path } => LinkReply::Metadata(
                disk.call(format!("metadata {path}"))
                    .and_then(|()| disk.nodes.get(&path).map(meta_of).ok_or_else(not_found)),
            ),
            LinkRequest::Exists { path } => {
                disk.log.push(format!("exists {path}"));
                LinkReply::Exists(disk.holds(&path))
            }
            LinkRequest::CreateDirAll { path } => LinkReply::Done(disk.create_dir_all(&path)),
            LinkRequest::MovePath { from, to, kind } => {
                LinkReply::Done(transfer(disk, move_path_with_fallback(from, to, kind)))
            }
            LinkRequest::Canonicalize { path } => LinkReply::Canonical(
                disk.call(format!("canonicalize {path}")).map(|()| format!("/full{path}")),
            ),
            LinkRequest::Symlink(symlink) => {
                LinkReply::Done(disk.symlink(&symlink.target, &symlink.link))
            }
        };
        moving.resume(reply);
    }
}

fn cli(dry_run: bool) -> Cli {
    Cli {
        command: None,
        config: "cleaner.toml".to_string(),
        paths: Vec::new(),
        threads: Some(1),
        no_progress: true,
        dry_run,
        delete_strategy: DeleteStrategy::Native,
        repair_permissions: false,
    }
}

fn run_links(
    disk: &mut Disk,
    mut batch: Batch<MoveFailureEntry>,
) -> Result<MoveOutcome<MoveFailureEntry>, ErrorReport> {
    while let Some(request) = batch.request() {
        match request {
            BatchRequest::CreateDirAll { path } => {
                let created = disk.create_dir_all(&path);
                batch = batch.prepared(created)?;
            }
            BatchRequest::Move { source } => {
                let mut moving = next_move(Platform::Unix, &batch).expect("a source is left");
                assert_eq!(moving.source, source);
                assert!(moving.settle().is_none());
                drive(disk, &mut moving);
                batch.record(moving.settle().expect("the move is finished"));
            }
        }
    }
    assert!(next_move(Platform::Unix, &batch).is_none());
    Ok(batch.outcome())
}

#[test]
fn move_and_link_one_path_dry_run_keeps_file_source() {
    let mut disk = Disk::with(&[("/t", Node::Dir), ("/t/a.txt", Node::File)]);
    let destination = move_and_link(&mut disk, Platform::Unix, "/t/a.txt", "/t/dest", true)
        .expect("dry run should calculate destination");
    assert!(disk.holds("/t/a.txt"));
    assert!(!disk.holds(&destination));
    assert_eq!(destination, "/t/dest/a.txt");
    assert_eq!(disk.log, ["metadata /t/a.txt", "exists /t/dest/a.txt"]);
}

#[test]
fn move_and_link_one_path_dry_run_keeps_directory_source() {
    let mut disk = Disk::with(&[
        ("/t", Node::Dir),
        ("/t/folder", Node::Dir),
        ("/t/folder/inner", Node::Dir),
        ("/t/folder/inner/a.txt", Node::File),
    ]);
    let destination = move_and_link(&mut disk, Platform::Unix, "/t/folder", "/t/dest", true)
        .expect("dry run should calculate destination");
    assert!(disk.holds("/t/folder"));
    assert!(!disk.holds(&destination));
}

#[test]
fn run_move_link_dry_run_uses_config_target() {
    let mut disk = Disk::with(&[("/t", Node::Dir), ("/t/a.txt", Node::File)]);
    let cli = cli(true);
    let run = run_move_link(&cli, vec!["/t/a.txt".to_string()], None).expect("move-link should run");
    let batch = match run {
        MoveRun::NeedsConfig { path, sources, dry_run } => {
            assert_eq!(path, cli.config);
            let config = MoveConfig { move_target_dir: Some("D:\\archive".to_string()) };
            MoveRun::configured(sources, dry_run, config).expect("the target is set")
        }
        MoveRun::Ready(_) => panic!("the target is in the config"),
    };
    let outcome = run_links(&mut disk, batch).expect("move-link should run");
    assert_eq!(outcome.total, 1);
    assert_eq!(outcome.succeeded, 1);
    assert_eq!(outcome.failed, 0);
    assert!(disk.holds("/t/a.txt"));
}

#[test]
fn runs_without_a_target_are_refused() {
    let unset = MoveConfig { move_target_dir: None };
    let err = MoveRun::<MoveFailureEntry>::configured(Vec::new(), false, unset).expect_err("unset");
    assert_eq!(
        err.message,
        "move target directory is not set; pass --target-dir or add move_target_dir to config"
    );
    let err = run_move_link(&cli(false), Vec::new(), Some(String::new())).expect_err("empty");
    assert_eq!(err.message, "target directory argument cannot be empty");
}

#[test]
fn file_is_moved_and_linked() {
    let mut disk = Disk::with(&[("/a.txt", Node::File)]);
    let destination =
        move_and_link(&mut disk, Platform::Unix, "/a.txt", "/d", false).expect("it moves");
    assert_eq!(destination, "/d/a.txt");
    assert_eq!(disk.nodes["/d/a.txt"], Node::File);
    assert_eq!(disk.nodes["/a.txt"], Node::Link("/full/d/a.txt".to_string()));
    assert_eq!(
        disk.log,
        [
            "metadata /a.txt",
            "exists /d/a.txt",
            "create /d",
            "rename /a.txt /d/a.txt",
            "canonicalize /d/a.txt",
            "symlink /full/d/a.txt /a.txt",
        ]
    );
}

#[test]
fn link_holds_the_destination_where_there_is_no_full_path() {
    let mut disk = Disk::with(&[("/a", Node::Dir)]);
    disk.refuse("canonicalize /d/a", failure(3));
    assert!(move_and_link(&mut disk, Platform::Unix, "/a", "/d", false).is_ok());
    assert_eq!(disk.nodes["/a"], Node::Link("/d/a".to_string()));
}

#[test]
fn refused_link_is_rolled_back() {
    let mut disk = Disk::with(&[("/a", Node::File)]);
    disk.refuse("symlink /full/d/a /a", failure(1314));
    let err = move_and_link(&mut disk, Platform::Unix, "/a", "/d", false).expect_err("no link");
    assert_eq!(err.full_text(), "failed to create symlink at /a -> /full/d/a: os error 1314");
    assert_eq!(disk.nodes["/a"], Node::File);
    assert!(!disk.holds("/d/a"));
}

#[test]
fn failed_rollback_is_reported() {
    let mut disk = Disk::with(&[("/a", Node::File)]);
    disk.refuse("symlink /full/d/a /a", failure(1314));
    disk.refuse("rename /d/a /a", failure(5));
    let err = move_and_link(&mut disk, Platform::Unix, "/a", "/d", false).expect_err("no link");
    assert_eq!(
        err.full_text(),
        "failed to create symlink at /a -> /full/d/a: os error 1314; rollback failed: os error 5"
    );
}

#[test]
fn without_links_the_entry_comes_back() {
    let mut disk = Disk::with(&[("/a", Node::File)]);
    let err = move_and_link(&mut disk, Platform::Other, "/a", "/d", false).expect_err("no links");
    assert_eq!(
        err.message,
        "failed to create symlink at /a -> /full/d/a: symbolic links are not supported on this platform"
    );
    assert_eq!(disk.nodes["/a"], Node::File);
}

#[test]
fn nothing_is_overwritten_by_links() {
    let mut disk = Disk::with(&[("/a", Node::File), ("/d/a", Node::File)]);
    let err = move_and_link(&mut disk, Platform::Unix, "/a", "/d", false).expect_err("taken");
    assert_eq!(err.message, "destination already exists, refusing to overwrite: /d/a");
    assert!(err.cause.is_none());
    let err = move_and_link(&mut disk, Platform::Unix, "/d/a", "/d/", false).expect_err("same");
    assert_eq!(err.message, "source and destination are the same path: /d/a");
    assert_eq!(disk.log, ["metadata /a", "exists /d/a", "metadata /d/a"]);
}

#[test]
fn moves_that_cannot_start_say_why() {
    let mut disk = Disk::with(&[("/", Node::Dir), ("/a", Node::File)]);
    let err = move_and_link(&mut disk, Platform::Unix, "/x", "/d", false).expect_err("missing");
    assert_eq!(err.full_text(), "failed to read source metadata: /x: not found");
    let err = move_and_link(&mut disk, Platform::Unix, "/", "/d", false).expect_err("no name");
    assert_eq!(err.full_text(), "source path has no file name: /");
    disk.refuse("create /d", failure(5));
    let err = move_and_link(&mut disk, Platform::Unix, "/a", "/d", false).expect_err("no parent");
    assert_eq!(err.full_text(), "failed to create destination parent directory /d: os error 5");
    disk.refuse("rename /a /d/a", failure(5));
    let err = move_and_link(&mut disk, Platform::Unix, "/a", "/d", false).expect_err("no move");
    assert_eq!(err.full_text(), "failed to move file from /a to /d/a: os error 5");
}

#[test]
fn other_volumes_take_a_copy() {
    let mut disk = Disk::with(&[("/a", Node::File)]);
    disk.refuse("rename /a /b", failure(17));
    let moving = move_file_with_fallback("/a".to_string(), "/b".to_string());
    assert!(transfer(&mut disk, moving).is_ok());
    assert_eq!(disk.log, ["rename /a /b", "copy /a /b", "remove /a"]);
    assert!(!disk.holds("/a") && disk.holds("/b"));
}

#[test]
fn source_stays_where_the_copy_fails() {
    let mut disk = Disk::with(&[("/a", Node::Dir), ("/a/x", Node::File)]);
    disk.refuse("rename /a /b", failure(17));
    disk.refuse("copy /a/x /b/x", failure(112));
    let moving = move_directory_with_fallback("/a".to_string(), "/b".to_string());
    let err = transfer(&mut disk, moving).expect_err("the disk is full");
    assert_eq!(err.raw_os_error(), Some(112));
    assert!(disk.holds("/a/x"));
    let mut disk = Disk::with(&[("/a", Node::File)]);
    disk.refuse("rename /a /b", failure(5));
    let moving =
        move_path_with_fallback("/a".to_string(), "/b".to_string(), SourceKind::File);
    assert!(transfer(&mut disk, moving).is_err());
    assert_eq!(disk.log, ["rename /a /b"]);
}

#[test]
fn directories_are_copied_whole() {
    let mut disk = Disk::with(&[
        ("/a", Node::Dir),
        ("/a/f", Node::File),
        ("/a/l", Node::Link("s".to_string())),
        ("/a/s", Node::Dir),
        ("/a/s/g", Node::File),
        ("/a/s/h", Node::Link("/gone".to_string())),
    ]);
    disk.refuse("rename /a /b", failure(17));
    let moving = move_directory_with_fallback("/a".to_string(), "/b".to_string());
    assert!(transfer(&mut disk, moving).is_ok());
    let left: Vec<(&str, &Node)> =
        disk.nodes.iter().map(|(path, node)| (path.as_str(), node)).collect();
    assert_eq!(
        left,
        [
            ("/b", &Node::Dir),
            ("/b/f", &Node::File),
            ("/b/l", &Node::Link("s".to_string())),
            ("/b/s", &Node::Dir),
            ("/b/s/g", &Node::File),
            ("/b/s/h", &Node::Link("/gone".to_string())),
        ]
    );
    assert!(disk.log.contains(&"is_dir /a/s".to_string()));
    assert!(disk.log.contains(&"is_dir /gone".to_string()));
}

#[test]
fn copies_end_with_the_first_failure() {
    let tree = [("/a", Node::Dir), ("/a/f", Node::File), ("/a/l", Node::Link("f".to_string()))];
    for (call, code) in [
        ("create /b", 1),
        ("list /a", 2),
        ("entry /a/f", 3),
        ("look /a/f", 4),
        ("copy /a/f /b/f", 5),
        ("read /a/l", 6),
        ("symlink f /b/l", 7),
    ] {
        let mut disk = Disk::with(&tree);
        disk.refuse(call, failure(code));
        let err = copy_tree(&mut disk, Platform::Unix, "/a", "/b").expect_err("refused");
        assert_eq!(err.raw_os_error(), Some(code), "{call}");
        assert_eq!(disk.log.last().map(String::as_str), Some(call));
    }
}

#[test]
fn strange_entries_are_not_copied() {
    let mut disk = Disk::with(&[("/a", Node::Dir), ("/a/p", Node::Pipe)]);
    let err = copy_tree(&mut disk, Platform::Unix, "/a", "/b").expect_err("a pipe");
    assert_eq!(err.kind, ErrorKind::Unsupported);
    assert_eq!(err.text, "unsupported entry type: /a/p");
    let mut disk = Disk::with(&[("/a", Node::Dir), ("/a/l", Node::Link("x".to_string()))]);
    let err = copy_tree(&mut disk, Platform::Other, "/a", "/b").expect_err("a link");
    assert_eq!(err.text, "symbolic links are not supported on this platform");
}

#[test]
fn link_runs_report_what_stayed() {
    let mut disk = Disk::with(&[("/a", Node::File), ("/b", Node::File), ("/d/b", Node::File)]);
    let sources = vec!["/a".to_string(), "/b".to_string(), "/..".to_string()];
    let run = run_move_link(&cli(false), sources, Some("/d".to_string())).expect("it starts");
    let batch = match run {
        MoveRun::Ready(batch) => batch,
        MoveRun::NeedsConfig { .. } => panic!("the target is given"),
    };
    let outcome = run_links(&mut disk, batch).expect("it runs");
    assert_eq!((outcome.total, outcome.succeeded, outcome.failed), (3, 1, 2));
    assert_eq!(
        summary_text(&outcome, false),
        "Mode: move-link\nTotal: 3\nSucceeded: 1\nFailed: 2\n\nMove-link failures:\n- source=/b | destination=/d/b | destination already exists, refusing to overwrite: /d/b\n- source=/.. | destination=unknown | failed to read source metadata: /..\n"
    );
    let done = MoveOutcome::<MoveFailureEntry> {
        total: 1,
        succeeded: 1,
        failed: 0,
        failures: Vec::new(),
    };
    assert_eq!(
        summary_text(&done, true),
        "Mode: dry-run (nothing was moved)\nTotal: 1\nSucceeded: 1\nFailed: 0\n"
    );
}

const FILE: FileMeta =
    FileMeta { is_dir: false, is_file: true, is_symlink: false, readonly: false, attributes: 0 };
const DIR: FileMeta = FileMeta { is_dir: true, is_file: false, ..FILE };

/// Replies for the move of one entry by a command.
struct Windows {
    metadata: Result<FileMeta, IoError>,
    taken: bool,
    output: Result<CommandOutput, IoError>,
    log: Vec<String>,
}

fn ended(success: bool, code: Option<i32>, stderr: &str) -> Result<CommandOutput, IoError> {
    Ok(CommandOutput { success, code, stdout: Vec::new(), stderr: stderr.as_bytes().to_vec() })
}

impl Windows {
    fn new(metadata: FileMeta, output: Result<CommandOutput, IoError>) -> Windows {
        Windows { metadata: Ok(metadata), taken: false, output, log: Vec::new() }
    }

    fn drive(&mut self, mut moving: MoveOne) -> Result<MoveSuccess, CommandFailureEntry> {
        while let Some(request) = moving.request() {
            let reply = match request {
                MoveOneRequest::SymlinkMetadata { path } => {
                    self.log.push(format!("look {path}"));
                    let metadata = std::mem::replace(&mut self.metadata, Err(not_found()));
                    MoveOneReply::Metadata(metadata)
                }
                MoveOneRequest::Exists { path } => {
                    self.log.push(format!("exists {path}"));
                    MoveOneReply::Exists(self.taken)
                }
                MoveOneRequest::Run(command) => {
                    self.log.push(format!("{} {}", command.program, command.args.join(" ")));
                    MoveOneReply::Output(std::mem::replace(&mut self.output, Err(not_found())))
                }
                MoveOneRequest::RemoveDir { path } => {
                    self.log.push(format!("remove {path}"));
                    MoveOneReply::Removed(Err(not_found()))
                }
            };
            moving.resume(reply);
        }
        moving.result().expect("the move is finished")
    }
}

fn by_command(source: &str, mt: Option<usize>, dry_run: bool) -> MoveOne {
    move_one_with_windows_commands(source.to_string(), "D:\\t", mt, dry_run)
}

#[test]
fn files_are_moved_by_cmd() {
    let mut windows = Windows::new(FILE, ended(true, Some(0), ""));
    let success = windows.drive(by_command("C:\\a b.txt", Some(4), false)).expect("it moves");
    assert_eq!(success.destination, "D:\\t\\a b.txt");
    assert_eq!(success.backend, MoveBackend::CmdMove);
    assert_eq!(success.command, "cmd /C move /Y \"C:\\a b.txt\" \"D:\\t\\a b.txt\"");
    assert_eq!(
        windows.log,
        ["look C:\\a b.txt", "exists D:\\t\\a b.txt", "cmd /C move /Y C:\\a b.txt D:\\t\\a b.txt"]
    );
}

#[test]
fn directories_are_moved_by_robocopy() {
    let mut windows = Windows::new(DIR, ended(false, Some(3), ""));
    let success = windows.drive(by_command("C:\\d", Some(16), false)).expect("it moves");
    assert_eq!(success.backend, MoveBackend::RoboCopy);
    let line =
        "robocopy C:\\d D:\\t\\d /E /MOVE /R:1 /W:1 /NFL /NDL /NJH /NJS /NP /MT:16".to_string();
    assert_eq!(success.command, line);
    assert_eq!(windows.log, ["look C:\\d", "exists D:\\t\\d", line.as_str(), "remove C:\\d"]);
}

#[test]
fn dry_runs_of_commands_run_nothing() {
    let mut windows = Windows::new(DIR, ended(true, Some(0), ""));
    let success = windows.drive(by_command("C:\\d", None, true)).expect("it would move");
    assert_eq!(
        success.command,
        "robocopy C:\\d D:\\t\\d /E /MOVE /R:1 /W:1 /NFL /NDL /NJH /NJS /NP"
    );
    assert_eq!(windows.log, ["look C:\\d", "exists D:\\t\\d"]);
}

#[test]
fn failed_commands_are_reported() {
    let mut windows = Windows::new(DIR, ended(true, Some(8), " no room \r\n"));
    let entry = windows.drive(by_command("C:\\d", None, false)).expect_err("eight is a failure");
    assert_eq!(entry.backend, "robocopy");
    assert_eq!(entry.exit_code, Some(8));
    assert_eq!(entry.error, "no room");
    assert_eq!(entry.destination.as_deref(), Some("D:\\t\\d"));
    assert!(!windows.log.contains(&"remove C:\\d".to_string()));

    let mut windows = Windows::new(DIR, ended(true, None, ""));
    let entry = windows.drive(by_command("C:\\d", None, false)).expect_err("it was killed");
    assert_eq!(entry.error, "command terminated without exit code");

    let mut windows = Windows::new(FILE, ended(false, Some(1), ""));
    let entry = windows.drive(by_command("C:\\f", None, false)).expect_err("it failed");
    assert_eq!(entry.error, "command exited with code 1");
    assert_eq!(entry.command, "cmd /C move /Y C:\\f D:\\t\\f");

    let mut windows = Windows::new(FILE, Err(failure(2)));
    let entry = windows.drive(by_command("C:\\f", None, false)).expect_err("no cmd");
    assert_eq!(entry.error, "failed to spawn cmd move: os error 2");
    assert_eq!(entry.exit_code, Some(2));
    let mut windows = Windows::new(DIR, Err(failure(2)));
    let entry = windows.drive(by_command("C:\\f", None, false)).expect_err("no robocopy");
    assert_eq!(entry.error, "failed to spawn robocopy: os error 2");
}

#[test]
fn moves_by_command_that_cannot_start_say_why() {
    let mut windows = Windows::new(FILE, ended(true, Some(0), ""));
    windows.metadata = Err(failure(3));
    let entry = windows.drive(by_command("C:\\f", None, false)).expect_err("unseen");
    assert_eq!(entry.error, "failed to read source metadata: os error 3");
    assert_eq!((entry.backend, entry.command.as_str()), ("unknown", "<unavailable>"));
    assert_eq!((entry.destination, entry.exit_code), (None, Some(3)));

    let mut windows = Windows::new(DIR, ended(true, Some(0), ""));
    let entry = windows.drive(by_command("C:\\", None, false)).expect_err("no name");
    assert_eq!(entry.error, "source path has no file name: C:\\");
    assert_eq!((entry.backend, entry.destination), ("robocopy", None));

    let mut windows = Windows::new(FILE, ended(true, Some(0), ""));
    let entry = windows.drive(by_command("d:/t/f", None, false)).expect_err("same path");
    assert_eq!(entry.error, "source and destination are the same path");
    assert_eq!(entry.destination.as_deref(), Some("D:\\t\\f"));

    let mut windows = Windows::new(FILE, ended(true, Some(0), ""));
    windows.taken = true;
    let entry = windows.drive(by_command("C:\\f", None, false)).expect_err("taken");
    assert_eq!(entry.error, "destination already exists, refusing to overwrite");
    assert_eq!(entry.backend, "cmd-move");
    assert_eq!(windows.log, ["look C:\\f", "exists D:\\t\\f"]);
}

#[test]
fn command_summaries() {
    let mut windows = Windows::new(FILE, ended(false, Some(1), "no"));
    let entry = windows.drive(by_command("C:\\f", None, false)).expect_err("it failed");
    let mut windows = Windows::new(DIR, ended(true, Some(0), ""));
    let nameless = windows.drive(by_command("C:\\", None, false)).expect_err("no name");
    let outcome =
        MoveOutcome { total: 2, succeeded: 0, failed: 2, failures: vec![entry, nameless] };
    assert_eq!(
        command_summary_text(&outcome, false),
        "Mode: move\nTotal: 2\nSucceeded: 0\nFailed: 2\n\nMove failures:\n- source=C:\\f | destination=D:\\t\\f | backend=cmd-move | exit_code=1 | command=cmd /C move /Y C:\\f D:\\t\\f | no\n- source=C:\\ | destination=unknown | backend=robocopy | exit_code=unknown | command=<unavailable> | source path has no file name: C:\\\n"
    );
}

#[test]
fn moves_follow_their_batch() {
    for dry_run in [false, true] {
        let sources = vec!["C:\\a".to_string(), "C:\\".to_string(), "C:\\b".to_string()];
        let target_dir = Some("D:\\t".to_string());
        let run = run_move(Platform::Windows, &cli(dry_run), sources, target_dir, Some(3));
        let mut batch = match run.expect("it starts") {
            MoveRun::Ready(batch) => batch,
            MoveRun::NeedsConfig { .. } => panic!("the target is given"),
        };
        assert_eq!(next_command_move(&batch, Some(3)).is_none(), !dry_run);
        if !dry_run {
            batch = batch.prepared(Ok(())).expect("the directory is there");
        }
        while let Some(moving) = next_command_move(&batch, Some(3)) {
            assert_eq!((moving.mt, moving.dry_run), (Some(3), dry_run));
            assert!(moving.settle().is_none());
            let mut windows = Windows::new(DIR, ended(true, Some(8), "no"));
            batch.record(windows.drive(moving).map(|_| ()));
        }
        let outcome = batch.outcome();
        let failed: Vec<(&str, Option<&str>)> = outcome
            .failures
            .iter()
            .map(|entry| (entry.source.as_str(), entry.destination.as_deref()))
            .collect();
        if dry_run {
            assert_eq!(failed, [("C:\\", None)]);
        } else {
            assert_eq!(
                failed,
                [("C:\\a", Some("D:\\t\\a")), ("C:\\", None), ("C:\\b", Some("D:\\t\\b"))]
            );
        }
        assert_eq!(outcome.succeeded + outcome.failed, outcome.total);
    }
}
