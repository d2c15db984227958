use windows_cleaner::batch::{exit_code, Batch, BatchRequest, MoveOutcome, MoveRun};
use windows_cleaner::cli::{parse_threads, Cli, DeleteStrategy};
use windows_cleaner::config::{
    configured_target_dir, parse_config, read_config, resolve_move_target_dir,
    resolve_target_paths, template_written, write_template_config, MoveConfig, TargetDir,
    TargetPaths,
};
use windows_cleaner::delete::{
    collect_path_details, failure_entry, format_windows_attribute_flags,
    is_directory_reparse_point, is_retriable_delete_error, progress_message,
    should_try_attribute_fix, should_try_permission_repair, shows_progress, summary_text,
    DeleteError, FailureEntry, PathDeleteError, RunOutcome, RunTally,
};
use windows_cleaner::fault::{CommandOutput, ErrorKind, ErrorReport, FileMeta, IoError};
use windows_cleaner::platform::Platform;
use windows_cleaner::rename::{
    command_error_text, format_command, is_robocopy_success, printed_error_text, quote_arg,
    remove_empty_source_dir, run_move, MoveBackend,
};
use windows_cleaner::repair::{
    command_failure, read_dir_with_repair, repair_permissions_for_path, run_command_checked,
    try_repair_permissions, OpenReply, OpenRequest,
};
use windows_cleaner::symlink::{
    create_dir_symlink, create_file_symlink, create_symlink_for_kind, create_symlink_like_source,
    resolve_link, SymlinkCall,
};
use windows_cleaner::text::{decimal_text, hex8_text, signed_decimal_text, trim, truncate_for_log};
use windows_cleaner::transfer::{is_cross_device_error, kind_label, SourceKind};

fn from_std(err: &std::io::Error) -> IoError {
    let kind = match err.kind() {
        std::io::ErrorKind::NotFound => ErrorKind::NotFound,
        std::io::ErrorKind::PermissionDenied => ErrorKind::PermissionDenied,
        std::io::ErrorKind::WouldBlock => ErrorKind::WouldBlock,
        std::io::ErrorKind::Unsupported => ErrorKind::Unsupported,
        _ => ErrorKind::Other,
    };
    IoError { kind, os_code: err.raw_os_error(), text: err.to_string() }
}

fn coded(code: i32) -> IoError {
    IoError { kind: ErrorKind::Other, os_code: Some(code), text: format!("os error {code}") }
}

fn of_kind(kind: ErrorKind) -> IoError {
    IoError::new(kind, "said so".to_string())
}

fn plain_meta() -> FileMeta {
    FileMeta { is_dir: false, is_file: true, is_symlink: false, readonly: false, attributes: 0 }
}

fn cli() -> Cli {
    Cli {
        command: None,
        config: "cleaner.toml".to_string(),
        paths: Vec::new(),
        threads: Some(1),
        no_progress: true,
        dry_run: false,
        delete_strategy: DeleteStrategy::Native,
        repair_permissions: false,
    }
}

#[test]
fn robocopy_exit_code_threshold() {
    assert!(is_robocopy_success(0));
    assert!(is_robocopy_success(1));
    assert!(is_robocopy_success(7));
    assert!(!is_robocopy_success(8));
}

#[test]
fn retriable_delete_codes_are_detected() {
    assert!(is_retriable_delete_error(&from_std(&std::io::Error::from_raw_os_error(5))));
    assert!(is_retriable_delete_error(&from_std(&std::io::Error::from_raw_os_error(32))));
    assert!(!is_retriable_delete_error(&from_std(&std::io::Error::from_raw_os_error(2))));
}

#[test]
fn retriable_errors_by_code_and_by_kind() {
    for code in [5, 32, 33, 145] {
        assert!(is_retriable_delete_error(&coded(code)));
        assert!(should_try_attribute_fix(&coded(code)));
    }
    for code in [0, 2, 3, 17, 31, 34, 144, 146] {
        assert!(!is_retriable_delete_error(&coded(code)));
        assert!(!should_try_attribute_fix(&coded(code)));
    }
    assert!(is_retriable_delete_error(&of_kind(ErrorKind::PermissionDenied)));
    assert!(is_retriable_delete_error(&of_kind(ErrorKind::WouldBlock)));
    assert!(!is_retriable_delete_error(&of_kind(ErrorKind::NotFound)));
    assert!(!is_retriable_delete_error(&of_kind(ErrorKind::Other)));
}

#[test]
fn repair_is_tried_where_access_is_denied() {
    assert!(should_try_permission_repair(&coded(5)));
    assert!(should_try_permission_repair(&of_kind(ErrorKind::PermissionDenied)));
    assert!(!should_try_permission_repair(&coded(32)));
    assert!(!should_try_permission_repair(&of_kind(ErrorKind::WouldBlock)));
}

#[test]
fn cross_device_errors_have_one_code() {
    assert!(is_cross_device_error(&coded(17)));
    assert!(!is_cross_device_error(&coded(18)));
    assert!(!is_cross_device_error(&of_kind(ErrorKind::Other)));
}

#[test]
fn thread_counts() {
    assert_eq!(parse_threads("1"), Ok(1));
    assert_eq!(parse_threads("16"), Ok(16));
    assert_eq!(parse_threads("+7"), Ok(7));
    assert_eq!(parse_threads("007"), Ok(7));
    assert_eq!(parse_threads("0"), Err("threads must be >= 1".to_string()));
    assert_eq!(parse_threads("+0"), Err("threads must be >= 1".to_string()));
    let bad = Err("threads must be a positive integer".to_string());
    for input in ["", "+", "-1", "x", "1x", " 1", "1 ", "1.5", "99999999999999999999999"] {
        assert_eq!(parse_threads(input), bad, "{input:?}");
        assert!(input.parse::<usize>().is_err());
    }
    assert_eq!(parse_threads("18446744073709551615"), Ok(18446744073709551615));
    assert_eq!(parse_threads("18446744073709551616"), bad);
}

#[test]
fn written_numbers_are_read_back() {
    for n in [1u64, 9, 10, 99, 100, 12345, 4294967296] {
        assert_eq!(parse_threads(&decimal_text(n)), Ok(n as usize));
    }
}

#[test]
fn numbers_are_written_as_usual() {
    for n in [0u64, 1, 9, 10, 11, 100, 1234567890, u64::MAX] {
        assert_eq!(decimal_text(n), n.to_string());
    }
    for n in [0i32, 1, -1, 10, -10, i32::MAX, i32::MIN] {
        assert_eq!(signed_decimal_text(n), n.to_string());
    }
    for n in [0u32, 0x10, 0x423, 0xDEADBEEF, u32::MAX] {
        assert_eq!(hex8_text(n), format!("{n:08X}"));
    }
}

#[test]
fn trimming_takes_white_space_off_both_ends() {
    for text in ["", "  ", " a ", "\r\na b\t\n", "\u{3000}x\u{85}", "\u{a0}", "\u{200b}x", "é "] {
        assert_eq!(trim(text), text.trim(), "{text:?}");
    }
}

#[test]
fn every_white_character_is_trimmed() {
    for u in 0..0x3100u32 {
        if let Some(c) = char::from_u32(u) {
            let text = format!("{c}a{c}");
            assert_eq!(trim(&text), text.trim(), "{u:x}");
        }
    }
}

#[test]
fn truncation_keeps_the_beginning() {
    assert_eq!(truncate_for_log("abc", 3), "abc");
    assert_eq!(truncate_for_log("abcd", 3), "abc...");
    assert_eq!(truncate_for_log("", 0), "");
    assert_eq!(truncate_for_log("a", 0), "...");
    assert_eq!(truncate_for_log("ééé", 2), "éé...");
}

#[test]
fn attribute_flags_are_named_in_order() {
    assert_eq!(format_windows_attribute_flags(0), "NONE");
    assert_eq!(format_windows_attribute_flags(0x10), "DIRECTORY");
    assert_eq!(
        format_windows_attribute_flags(0x437),
        "READONLY|HIDDEN|SYSTEM|DIRECTORY|ARCHIVE|REPARSE_POINT"
    );
    assert_eq!(format_windows_attribute_flags(0x21), "READONLY|ARCHIVE");
    assert_eq!(format_windows_attribute_flags(0x80), "NONE");
}

#[test]
fn path_details() {
    let meta = FileMeta { is_dir: true, is_file: false, attributes: 0x10, ..plain_meta() };
    assert_eq!(
        collect_path_details(Platform::Windows, &Ok(meta)),
        "exists=true kind=dir readonly=false attrs=0x00000010 flags=DIRECTORY"
    );
    assert_eq!(
        collect_path_details(Platform::Unix, &Ok(FileMeta { readonly: true, ..plain_meta() })),
        "exists=true kind=file readonly=true"
    );
    let link = FileMeta { is_file: false, is_symlink: true, ..plain_meta() };
    assert_eq!(
        collect_path_details(Platform::Unix, &Ok(link)),
        "exists=true kind=symlink readonly=false"
    );
    let pipe = FileMeta { is_file: false, ..plain_meta() };
    assert_eq!(
        collect_path_details(Platform::Unix, &Ok(pipe)),
        "exists=true kind=other readonly=false"
    );
    assert_eq!(
        collect_path_details(Platform::Windows, &Err(coded(2))),
        "exists=false metadata_error=os error 2"
    );
}

#[test]
fn links_to_directories() {
    let dir = FileMeta { is_dir: true, is_file: false, attributes: 0x10, ..plain_meta() };
    let junction = FileMeta { attributes: 0x410, ..dir };
    assert!(!is_directory_reparse_point(Platform::Windows, &dir));
    assert!(is_directory_reparse_point(Platform::Windows, &junction));
    assert!(!is_directory_reparse_point(Platform::Unix, &junction));
    let file = FileMeta { attributes: 0x400, ..plain_meta() };
    assert!(!is_directory_reparse_point(Platform::Windows, &file));
    let both = FileMeta { is_symlink: true, ..dir };
    assert!(is_directory_reparse_point(Platform::Unix, &both));
}

#[test]
fn deletion_errors_are_told_apart() {
    assert_eq!(DeleteError::Missing.message(), "path does not exist");
    assert_eq!(DeleteError::Missing.raw_os_error(), None);
    let metadata = DeleteError::Metadata(coded(5));
    assert_eq!(metadata.message(), "failed to read metadata: os error 5");
    assert_eq!(metadata.raw_os_error(), Some(5));
    let file = DeleteError::RemoveFile(coded(32));
    assert_eq!(file.message(), "failed to delete file: os error 32");
    let dir = PathDeleteError::new("C:\\d".to_string(), DeleteError::RemoveDir(coded(145)));
    assert_eq!(dir.error.message(), "failed to delete directory: os error 145");
    assert_eq!(dir.raw_os_error(), Some(145));
    assert_eq!(dir.failed_path, "C:\\d");
}

#[test]
fn print_summary_handles_no_failures() {
    let outcome = RunOutcome { total: 1, succeeded: 1, failed: 0, failures: Vec::new() };
    assert_eq!(
        summary_text(&outcome, false),
        "Mode: delete\nTotal: 1\nSucceeded: 1\nFailed: 0\nSkipped entries: 0\n"
    );
}

#[test]
fn print_summary_handles_failures() {
    let outcome = RunOutcome {
        total: 1,
        succeeded: 0,
        failed: 1,
        failures: vec![FailureEntry {
            path: "C:\\\\bad".to_string(),
            failed_path: "C:\\\\bad\\\\denied".to_string(),
            error: "failed".to_string(),
            os_code: Some(5),
            path_details: "exists=true kind=dir readonly=false attrs=0x00000010 flags=DIRECTORY"
                .to_string(),
        }],
    };
    let text = summary_text(&outcome, true);
    assert_eq!(
        text,
        "Mode: dry-run (nothing was deleted)\nTotal: 1\nSucceeded: 0\nFailed: 1\nSkipped entries: 1\n\nSkipped/Failed entries:\n- target=C:\\\\bad | failed_at=C:\\\\bad\\\\denied | failed | win32=5 | exists=true kind=dir readonly=false attrs=0x00000010 flags=DIRECTORY\n"
    );
}

#[test]
fn summary_without_a_code() {
    let issue = PathDeleteError::new("C:\\gone".to_string(), DeleteError::Missing);
    let entry = failure_entry(&"C:\\gone".to_string(), &issue, "exists=false".to_string());
    let outcome = RunOutcome { total: 1, succeeded: 0, failed: 1, failures: vec![entry] };
    assert!(summary_text(&outcome, false).ends_with(
        "- target=C:\\gone | failed_at=C:\\gone | path does not exist | win32=unknown | exists=false\n"
    ));
}

#[test]
fn progress_lines() {
    assert_eq!(progress_message(3, 10), "ok: 3 fail: 10");
    assert!(shows_progress(true, true));
    assert!(!shows_progress(true, false));
    assert!(!shows_progress(false, true));
}

fn stayed(path: &str) -> FailureEntry {
    let issue = PathDeleteError::new(path.to_string(), DeleteError::Missing);
    failure_entry(&path.to_string(), &issue, String::new())
}

#[test]
fn a_run_adds_up_in_any_order() {
    let mut forward = RunTally::new(3);
    forward.record(Vec::new());
    forward.record(vec![stayed("a"), stayed("b")]);
    forward.record(Vec::new());
    let mut backward = RunTally::new(3);
    backward.record(vec![stayed("a"), stayed("b")]);
    backward.record(Vec::new());
    backward.record(Vec::new());
    for tally in [forward, backward] {
        assert_eq!(tally.processed, 3);
        let outcome = tally.outcome();
        assert_eq!((outcome.total, outcome.succeeded, outcome.failed), (3, 2, 1));
        assert_eq!(outcome.failures.len(), 2);
        assert_eq!(outcome.failures[0].path, "a");
        assert_eq!(outcome.failures[1].path, "b");
    }
}

#[test]
fn read_config_fails_for_missing_file() {
    let missing = IoError {
        kind: ErrorKind::NotFound,
        os_code: Some(2),
        text: "no such file".to_string(),
    };
    let err = read_config("missing.toml", Err(missing)).expect_err("missing config should fail");
    let msg = err.full_text();
    assert!(msg.contains("failed to read config"));
    assert_eq!(msg, "failed to read config at missing.toml: no such file");
}

#[test]
fn config_that_does_not_parse() {
    let parsed: Result<i32, ErrorReport> = parse_config("c.toml", Err("expected `=`".to_string()));
    let err = parsed.expect_err("it should fail");
    assert_eq!(err.full_text(), "failed to parse TOML config at c.toml: expected `=`");
    assert_eq!(parse_config("c.toml", Ok(7)).expect("it should pass"), 7);
    assert_eq!(read_config("c.toml", Ok("text".to_string())).expect("it should pass"), "text");
}

#[test]
fn write_template_config_creates_file() {
    let content = write_template_config("template.toml", false, false)
        .expect("template should be written");
    assert!(content.contains("paths = ["));
    assert!(content.contains("move_target_dir"));
    assert!(content.contains("move_target_dir = \"D:\\\\archive\"\n"));
    assert!(template_written("template.toml", Ok(())).is_ok());
}

#[test]
fn template_is_not_overwritten_without_force() {
    let err = write_template_config("t.toml", true, false).expect_err("it is there");
    assert_eq!(
        err.full_text(),
        "template file already exists at t.toml (use --force to overwrite)"
    );
    assert!(write_template_config("t.toml", true, true).is_ok());
    let err = template_written("t.toml", Err(coded(5))).expect_err("not written");
    assert_eq!(err.full_text(), "failed to write template config at t.toml: os error 5");
}

#[test]
fn resolve_move_target_dir_prefers_argument() {
    let config_path = "cleaner.toml".to_string();
    let override_dir = "D:\\override".to_string();
    let resolved = resolve_move_target_dir(&config_path, Some(override_dir.clone()))
        .expect("target dir should resolve");
    assert!(matches!(resolved, TargetDir::Given(dir) if dir == override_dir));
}

#[test]
fn resolve_move_target_dir_from_config() {
    let config_path = "cleaner.toml".to_string();
    let resolved = resolve_move_target_dir(&config_path, None).expect("target dir should resolve");
    assert!(matches!(resolved, TargetDir::InConfig(path) if path == config_path));
    let config = MoveConfig { move_target_dir: Some("D:\\from-config".to_string()) };
    assert_eq!(configured_target_dir(config).expect("it is set"), "D:\\from-config");
}

#[test]
fn empty_target_directories_are_refused() {
    let err = resolve_move_target_dir(&"c.toml".to_string(), Some(String::new()))
        .expect_err("empty argument");
    assert_eq!(err.full_text(), "target directory argument cannot be empty");
    for unset in [None, Some(String::new())] {
        let err = configured_target_dir(MoveConfig { move_target_dir: unset }).expect_err("unset");
        assert_eq!(
            err.full_text(),
            "move target directory is not set; pass --target-dir or add move_target_dir to config"
        );
    }
}

#[test]
fn direct_paths_win_over_the_config() {
    let mut direct = cli();
    direct.paths = vec!["C:\\a".to_string(), "D:\\b\\c".to_string()];
    assert!(matches!(
        resolve_target_paths(&direct),
        TargetPaths::Direct(paths) if paths == ["C:\\a", "D:\\b\\c"]
    ));
    assert!(matches!(
        resolve_target_paths(&cli()),
        TargetPaths::InConfig(path) if path == "cleaner.toml"
    ));
}

#[test]
fn exit_codes() {
    assert_eq!(exit_code(&Ok(0)), 0);
    assert_eq!(exit_code(&Ok(3)), 1);
    assert_eq!(exit_code(&Err(ErrorReport::plain("no".to_string()))), 2);
}

#[test]
fn batches_count_every_source_once() {
    let sources = vec!["a".to_string(), "b".to_string(), "c".to_string()];
    let batch: Batch<String> = Batch::new("D:\\t".to_string(), sources, false);
    assert!(matches!(batch.request(), Some(BatchRequest::CreateDirAll { path }) if path == "D:\\t"));
    let mut batch = batch.prepared(Ok(())).expect("prepared");
    for (source, result) in [("a", Ok(())), ("b", Err("b stayed".to_string())), ("c", Ok(()))] {
        assert!(matches!(batch.request(), Some(BatchRequest::Move { source: s }) if s == source));
        batch.record(result);
    }
    assert!(batch.request().is_none());
    let outcome: MoveOutcome<String> = batch.outcome();
    assert_eq!((outcome.total, outcome.succeeded, outcome.failed), (3, 2, 1));
    assert_eq!(outcome.failures, ["b stayed"]);
}

#[test]
fn batches_without_sources_ask_for_nothing() {
    let batch: Batch<String> = Batch::new("D:\\t".to_string(), Vec::new(), false);
    assert!(batch.request().is_none());
    assert_eq!(batch.outcome().total, 0);
}

#[test]
fn batches_stop_without_their_directory() {
    let batch: Batch<String> = Batch::new("D:\\t".to_string(), vec!["a".to_string()], false);
    let err = batch.prepared(Err(coded(5))).expect_err("no directory");
    assert_eq!(err.full_text(), "failed to create move target directory D:\\t: os error 5");
}

#[test]
fn moves_need_windows_and_a_fair_thread_count() {
    let sources = || vec!["C:\\a".to_string()];
    let target = || Some("D:\\t".to_string());
    let err = run_move(Platform::Unix, &cli(), sources(), target(), None).expect_err("not here");
    assert_eq!(err.message, "`move` command is only supported on Windows");
    let w = Platform::Windows;
    let err = run_move(w, &cli(), sources(), target(), Some(129)).expect_err("too many");
    assert_eq!(err.message, "--mt must be between 1 and 128 for robocopy");
    let run = run_move(w, &cli(), sources(), target(), Some(128)).expect("as many as allowed");
    assert!(matches!(run, MoveRun::Ready(batch) if batch.target_dir == "D:\\t"));
    let err = run_move(w, &cli(), sources(), Some(String::new()), None).expect_err("empty");
    assert_eq!(err.message, "target directory argument cannot be empty");
    let run = run_move(w, &cli(), sources(), None, None).expect("the config decides");
    assert!(matches!(run, MoveRun::NeedsConfig { path, .. } if path == "cleaner.toml"));
}

#[test]
fn backends_and_kinds_have_names() {
    assert_eq!(MoveBackend::CmdMove.label(), "cmd-move");
    assert_eq!(MoveBackend::RoboCopy.label(), "robocopy");
    assert_eq!(MoveBackend::Unknown.label(), "unknown");
    assert_eq!(kind_label(SourceKind::File), "file");
    assert_eq!(kind_label(SourceKind::Directory), "directory");
}

#[test]
fn arguments_are_quoted_where_needed() {
    assert_eq!(quote_arg(""), "\"\"");
    assert_eq!(quote_arg("C:\\a"), "C:\\a");
    assert_eq!(quote_arg("C:\\a b"), "\"C:\\a b\"");
    assert_eq!(quote_arg("a\tb"), "\"a\tb\"");
    assert_eq!(quote_arg("a\"b"), "\"a\\\"b\"");
    let args = vec!["/C".to_string(), "C:\\a b".to_string(), String::new()];
    assert_eq!(format_command("cmd", &args), "cmd /C \"C:\\a b\" \"\"");
    assert_eq!(format_command("cmd", &Vec::new()), "cmd");
}

fn output(success: bool, code: Option<i32>, stdout: &[u8], stderr: &[u8]) -> CommandOutput {
    CommandOutput { success, code, stdout: stdout.to_vec(), stderr: stderr.to_vec() }
}

#[test]
fn command_errors_say_what_was_printed() {
    let both = output(false, Some(1), b"out", b"  err\r\n");
    assert_eq!(command_error_text(&both), "err");
    let out = output(false, Some(1), b" out \n", b" \n");
    assert_eq!(command_error_text(&out), "out");
    let code = output(false, Some(-3), b"", b"");
    assert_eq!(command_error_text(&code), "command exited with code -3");
    let killed = output(false, None, b"", b"");
    assert_eq!(command_error_text(&killed), "command terminated without exit code");
    let broken = output(false, Some(1), b"", b"caf\xe9!");
    assert_eq!(command_error_text(&broken), "caf\u{fffd}!");
    let long = "x".repeat(221);
    assert_eq!(printed_error_text(&long, "", None), format!("{}...", "x".repeat(220)));
    assert_eq!(printed_error_text("", &"x".repeat(220), None), "x".repeat(220));
}

#[test]
fn commands_are_checked() {
    assert!(run_command_checked("takeown", Ok(output(true, Some(0), b"", b"noise"))).is_ok());
    let err = run_command_checked("takeown", Ok(output(false, Some(1), b"", b" no \xff\r\n")))
        .expect_err("it failed");
    assert_eq!(err.text, "takeown failed: no \u{fffd}");
    assert_eq!(err.kind, ErrorKind::PermissionDenied);
    assert_eq!(err.raw_os_error(), None);
    let err = run_command_checked("icacls", Ok(output(false, None, b"out", b"")))
        .expect_err("it failed");
    assert_eq!(err.text, "icacls failed: <no stderr output>");
    let err = run_command_checked("icacls", Err(coded(2))).expect_err("it did not start");
    assert_eq!(err.raw_os_error(), Some(2));
    let long = command_failure("takeown", &"y".repeat(161));
    assert_eq!(long.text, format!("takeown failed: {}...", "y".repeat(160)));
}

#[test]
fn repairs_run_both_commands() {
    let path = || "C:\\locked".to_string();
    let repair = repair_permissions_for_path(Platform::Windows, path(), true);
    let first = repair.command().expect("takeown comes first");
    assert_eq!(first.program, "takeown");
    assert_eq!(first.args, ["/F", "C:\\locked", "/A", "/D", "Y", "/R"]);
    let repair = repair.resume(Ok(()));
    let second = repair.command().expect("icacls comes second");
    assert_eq!(second.program, "icacls");
    assert_eq!(second.args, ["C:\\locked", "/grant", "*S-1-5-32-544:F", "/C", "/T"]);
    let repair = repair.resume(Ok(()));
    assert!(repair.command().is_none());
    assert!(try_repair_permissions(&repair.result().expect("finished")));

    let repair = repair_permissions_for_path(Platform::Windows, path(), false);
    assert_eq!(repair.command().expect("a command").args, ["/F", "C:\\locked", "/A", "/D", "Y"]);
    let repair = repair.resume(Err(coded(5)));
    assert!(repair.command().is_none());
    assert!(!try_repair_permissions(&repair.result().expect("finished")));
}

#[test]
fn repairs_need_windows() {
    let repair = repair_permissions_for_path(Platform::Unix, "/locked".to_string(), false);
    assert!(repair.command().is_none());
    let err = repair.result().expect("finished").expect_err("not here");
    assert_eq!(err.kind, ErrorKind::Unsupported);
    assert_eq!(err.text, "permission repair mode requires Windows");
}

#[test]
fn listings_are_repaired_once() {
    let open = read_dir_with_repair("C:\\d".to_string(), true);
    assert!(matches!(open.request(), Some(OpenRequest::ReadDir { .. })));
    let open = open.resume(OpenReply::Read(Err(coded(5))));
    assert!(matches!(
        open.request(),
        Some(OpenRequest::RepairPermissions { recursive: true, .. })
    ));
    let open = open.resume(OpenReply::Repaired(true));
    assert!(matches!(open.request(), Some(OpenRequest::ReadDir { .. })));
    let open = open.resume(OpenReply::Read(Err(coded(5))));
    assert!(open.request().is_none());
    let err = open.result().expect("finished").expect_err("still closed");
    assert_eq!(err.raw_os_error(), Some(5));

    let open = read_dir_with_repair("C:\\d".to_string(), false);
    let open = open.resume(OpenReply::Read(Err(coded(5))));
    assert!(open.request().is_none());
    let open = read_dir_with_repair("C:\\d".to_string(), true);
    let open = open.resume(OpenReply::Read(Err(coded(3))));
    assert!(open.request().is_none());
    let open = read_dir_with_repair("C:\\d".to_string(), true);
    let open = open.resume(OpenReply::Read(Err(coded(5)))).resume(OpenReply::Repaired(false));
    assert!(open.result().expect("finished").is_err());
}

#[test]
fn symlinks_are_made_by_the_call_of_the_platform() {
    let make = |platform, kind| {
        create_symlink_for_kind(platform, kind, "t".to_string(), "l".to_string())
    };
    let file = make(Platform::Windows, SourceKind::File).expect("links are there");
    assert_eq!(file.call, SymlinkCall::WindowsFile);
    assert_eq!((file.target.as_str(), file.link.as_str()), ("t", "l"));
    let dir = make(Platform::Windows, SourceKind::Directory).expect("links are there");
    assert_eq!(dir.call, SymlinkCall::WindowsDir);
    let unix = make(Platform::Unix, SourceKind::Directory).expect("links are there");
    assert_eq!(unix.call, SymlinkCall::Unix);
    let err = make(Platform::Other, SourceKind::File).expect_err("no links there");
    assert_eq!(err.kind, ErrorKind::Unsupported);
    assert_eq!(err.text, "symbolic links are not supported on this platform");
    let other = create_dir_symlink(Platform::Other, String::new(), String::new());
    assert!(other.is_err());
    let other = create_file_symlink(Platform::Unix, "a".to_string(), "b".to_string());
    assert_eq!(other.expect("links are there").call, SymlinkCall::Unix);
    let like = |dir| {
        create_symlink_like_source(Platform::Windows, dir, "t".to_string(), "l".to_string())
            .expect("links are there")
            .call
    };
    assert_eq!(like(true), SymlinkCall::WindowsDir);
    assert_eq!(like(false), SymlinkCall::WindowsFile);
}

#[test]
fn links_lead_on_from_their_directory() {
    assert_eq!(resolve_link(Platform::Unix, "/a/l", "t"), "/a/t");
    assert_eq!(resolve_link(Platform::Unix, "/a/l", "/t"), "/t");
    assert_eq!(resolve_link(Platform::Unix, "/", "t"), "t");
    assert_eq!(resolve_link(Platform::Windows, "C:\\a\\l", "..\\t"), "C:\\a\\..\\t");
}

#[test]
fn leftover_directories_are_worth_a_warning() {
    assert!(!remove_empty_source_dir(&Ok(())));
    assert!(!remove_empty_source_dir(&Err(of_kind(ErrorKind::NotFound))));
    assert!(remove_empty_source_dir(&Err(of_kind(ErrorKind::PermissionDenied))));
}

#[test]
fn zero_thread_count_is_rejected_by_clap() {
    let command = || {
        clap::Command::new("windows-cleaner")
            .arg(clap::Arg::new("threads").long("threads").value_parser(parse_threads))
    };
    let cli = command().try_get_matches_from(["windows-cleaner", "--threads", "0"]);
    assert!(cli.is_err());
    let cli = command()
        .try_get_matches_from(["windows-cleaner", "--threads", "2"])
        .expect("two is a thread count");
    assert_eq!(cli.get_one::<usize>("threads"), Some(&2));
}
