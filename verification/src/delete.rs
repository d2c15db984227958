//! Deleting paths: what can go wrong, and what is worth another try.
use crate::fault::{ErrorKind, FileMeta, IoError};
use crate::platform::Platform;
use crate::text::{
    decimal, decimal_text, hex8, hex8_text, join_texts, joined, signed_decimal,
    signed_decimal_text, texts,
};
use vstd::prelude::*;

verus! {

/// Why an entry could not be deleted.
#[derive(Debug)]
pub enum DeleteError {
    Missing,
    Metadata(IoError),
    RemoveFile(IoError),
    RemoveDir(IoError),
}

impl DeleteError {
    /// The code of the operating system behind the failure.
    pub open spec fn os_code(self) -> Option<i32> {
        match self {
            DeleteError::Missing => None,
            DeleteError::Metadata(err) => err.os_code,
            DeleteError::RemoveFile(err) => err.os_code,
            DeleteError::RemoveDir(err) => err.os_code,
        }
    }

    pub fn raw_os_error(&self) -> (code: Option<i32>)
        ensures
            code == self.os_code(),
    {
        match self {
            DeleteError::Missing => None,
            DeleteError::Metadata(err) => err.raw_os_error(),
            DeleteError::RemoveFile(err) => err.raw_os_error(),
            DeleteError::RemoveDir(err) => err.raw_os_error(),
        }
    }

    /// The text that the user sees.
    pub open spec fn text(self) -> Seq<char> {
        match self {
            DeleteError::Missing => "path does not exist"@,
            DeleteError::Metadata(err) => "failed to read metadata: "@ + err.text@,
            DeleteError::RemoveFile(err) => "failed to delete file: "@ + err.text@,
            DeleteError::RemoveDir(err) => "failed to delete directory: "@ + err.text@,
        }
    }

    /// Writes the failure for the user.
    pub fn message(&self) -> (out: String)
        ensures
            out@ == self.text(),
    {
        match self {
            DeleteError::Missing => "path does not exist".to_owned(),
            DeleteError::Metadata(err) => "failed to read metadata: ".to_owned().concat(
                err.text.as_str(),
            ),
            DeleteError::RemoveFile(err) => "failed to delete file: ".to_owned().concat(
                err.text.as_str(),
            ),
            DeleteError::RemoveDir(err) => "failed to delete directory: ".to_owned().concat(
                err.text.as_str(),
            ),
        }
    }
}

/// An entry that stayed, with the reason.
#[derive(Debug)]
pub struct PathDeleteError {
    pub failed_path: String,
    pub error: DeleteError,
}

impl PathDeleteError {
    pub fn new(failed_path: String, error: DeleteError) -> (issue: PathDeleteError)
        ensures
            issue == (PathDeleteError { failed_path, error }),
    {
        PathDeleteError { failed_path, error }
    }

    pub fn raw_os_error(&self) -> (code: Option<i32>)
        ensures
            code == self.error.os_code(),
    {
        self.error.raw_os_error()
    }
}

/// Another process or a missing right is in the way, and may not be for long:
/// access denied (5), a sharing violation (32), a lock (33), or a directory
/// that is not empty yet (145).
pub open spec fn retriable(err: IoError) -> bool {
    ||| err.kind == ErrorKind::PermissionDenied
    ||| err.kind == ErrorKind::WouldBlock
    ||| err.os_code == Some(5i32)
    ||| err.os_code == Some(32i32)
    ||| err.os_code == Some(33i32)
    ||| err.os_code == Some(145i32)
}

/// Whether a failed deletion is worth another try.
pub fn is_retriable_delete_error(err: &IoError) -> (yes: bool)
    ensures
        yes == retriable(*err),
{
    if err.kind == ErrorKind::PermissionDenied || err.kind == ErrorKind::WouldBlock {
        return true;
    }
    match err.raw_os_error() {
        Some(code) => code == 5 || code == 32 || code == 33 || code == 145,
        None => false,
    }
}

/// Whether clearing the read-only attribute could help.
pub fn should_try_attribute_fix(err: &IoError) -> (yes: bool)
    ensures
        yes == retriable(*err),
{
    is_retriable_delete_error(err)
}

/// The right to delete is missing.
pub open spec fn repairable(err: IoError) -> bool {
    err.kind == ErrorKind::PermissionDenied || err.os_code == Some(5i32)
}

/// Whether taking ownership could help.
pub fn should_try_permission_repair(err: &IoError) -> (yes: bool)
    ensures
        yes == repairable(*err),
{
    if err.kind == ErrorKind::PermissionDenied {
        return true;
    }
    match err.raw_os_error() {
        Some(code) => code == 5,
        None => false,
    }
}

// ---------------------------------------------------------------------------
// Attributes

pub const FILE_ATTRIBUTE_READONLY: u32 = 0x0001;

pub const FILE_ATTRIBUTE_HIDDEN: u32 = 0x0002;

pub const FILE_ATTRIBUTE_SYSTEM: u32 = 0x0004;

pub const FILE_ATTRIBUTE_DIRECTORY: u32 = 0x0010;

pub const FILE_ATTRIBUTE_ARCHIVE: u32 = 0x0020;

pub const FILE_ATTRIBUTE_REPARSE_POINT: u32 = 0x0400;

/// A directory that leads elsewhere: a link, or on Windows any reparse point.
pub open spec fn leads_elsewhere(platform: Platform, metadata: FileMeta) -> bool {
    metadata.is_dir && (metadata.is_symlink || (platform == Platform::Windows
        && metadata.attributes & FILE_ATTRIBUTE_REPARSE_POINT != 0))
}

/// Whether a directory must be deleted as a link, without a look inside.
pub fn is_directory_reparse_point(platform: Platform, metadata: &FileMeta) -> (yes: bool)
    ensures
        yes == leads_elsewhere(platform, *metadata),
{
    if !metadata.is_dir {
        return false;
    }
    if metadata.is_symlink {
        return true;
    }
    match platform {
        Platform::Windows => metadata.attributes & FILE_ATTRIBUTE_REPARSE_POINT != 0,
        _ => false,
    }
}

pub open spec fn flag(attrs: u32, bit: u32, name: Seq<char>) -> Seq<Seq<char>> {
    if attrs & bit != 0 {
        seq![name]
    } else {
        seq![]
    }
}

/// The names of the attributes that are set.
pub open spec fn flag_names(attrs: u32) -> Seq<Seq<char>> {
    flag(attrs, FILE_ATTRIBUTE_READONLY, "READONLY"@) + flag(
        attrs,
        FILE_ATTRIBUTE_HIDDEN,
        "HIDDEN"@,
    ) + flag(attrs, FILE_ATTRIBUTE_SYSTEM, "SYSTEM"@) + flag(
        attrs,
        FILE_ATTRIBUTE_DIRECTORY,
        "DIRECTORY"@,
    ) + flag(attrs, FILE_ATTRIBUTE_ARCHIVE, "ARCHIVE"@) + flag(
        attrs,
        FILE_ATTRIBUTE_REPARSE_POINT,
        "REPARSE_POINT"@,
    )
}

/// The attributes that are set, on one line.
pub open spec fn flags_text(attrs: u32) -> Seq<char> {
    if flag_names(attrs).len() == 0 {
        "NONE"@
    } else {
        joined(flag_names(attrs), "|"@)
    }
}

fn push_flag(names: &mut Vec<String>, attrs: u32, bit: u32, name: &str)
    ensures
        texts(final(names)@) == texts(old(names)@) + flag(attrs, bit, name@),
{
    let ghost before = texts(names@);
    if attrs & bit != 0 {
        names.push(name.to_owned());
        assert(texts(names@) =~= before + seq![name@]);
    } else {
        assert(before + seq![] =~= before);
    }
}

/// Writes the attributes that are set, with a bar between each two.
pub fn format_windows_attribute_flags(attrs: u32) -> (out: String)
    ensures
        out@ == flags_text(attrs),
{
    let mut names: Vec<String> = Vec::new();
    assert(texts(names@) =~= seq![]);
    push_flag(&mut names, attrs, FILE_ATTRIBUTE_READONLY, "READONLY");
    assert(texts(names@) =~= flag(attrs, FILE_ATTRIBUTE_READONLY, "READONLY"@));
    push_flag(&mut names, attrs, FILE_ATTRIBUTE_HIDDEN, "HIDDEN");
    push_flag(&mut names, attrs, FILE_ATTRIBUTE_SYSTEM, "SYSTEM");
    push_flag(&mut names, attrs, FILE_ATTRIBUTE_DIRECTORY, "DIRECTORY");
    push_flag(&mut names, attrs, FILE_ATTRIBUTE_ARCHIVE, "ARCHIVE");
    push_flag(&mut names, attrs, FILE_ATTRIBUTE_REPARSE_POINT, "REPARSE_POINT");
    assert(texts(names@) == flag_names(attrs));
    if names.len() == 0 {
        "NONE".to_owned()
    } else {
        join_texts(&names, "|")
    }
}

// ---------------------------------------------------------------------------
// Details of an entry that stayed

/// What an entry is called.
pub open spec fn kind_name(metadata: FileMeta) -> Seq<char> {
    if metadata.is_symlink {
        "symlink"@
    } else if metadata.is_dir {
        "dir"@
    } else if metadata.is_file {
        "file"@
    } else {
        "other"@
    }
}

pub open spec fn bool_text(b: bool) -> Seq<char> {
    if b {
        "true"@
    } else {
        "false"@
    }
}

/// What is said of an entry that stayed.
pub open spec fn details(platform: Platform, metadata: Result<FileMeta, IoError>) -> Seq<char> {
    match metadata {
        Ok(m) => {
            let common = "exists=true kind="@ + kind_name(m) + " readonly="@ + bool_text(
                m.readonly,
            );
            if platform == Platform::Windows {
                common + " attrs=0x"@ + hex8(m.attributes) + " flags="@ + flags_text(m.attributes)
            } else {
                common
            }
        },
        Err(err) => "exists=false metadata_error="@ + err.text@,
    }
}

/// Describes an entry that stayed, given what can be found out about it.
pub fn collect_path_details(platform: Platform, metadata: &Result<FileMeta, IoError>) -> (out:
    String)
    ensures
        out@ == details(platform, *metadata),
{
    match metadata {
        Ok(m) => {
            let kind = if m.is_symlink {
                "symlink"
            } else if m.is_dir {
                "dir"
            } else if m.is_file {
                "file"
            } else {
                "other"
            };
            let readonly = if m.readonly {
                "true"
            } else {
                "false"
            };
            let common = "exists=true kind=".to_owned().concat(kind).concat(" readonly=").concat(
                readonly,
            );
            match platform {
                Platform::Windows => {
                    let hex = hex8_text(m.attributes);
                    let flags = format_windows_attribute_flags(m.attributes);
                    common.concat(" attrs=0x").concat(hex.as_str()).concat(" flags=").concat(
                        flags.as_str(),
                    )
                },
                _ => common,
            }
        },
        Err(err) => "exists=false metadata_error=".to_owned().concat(err.text.as_str()),
    }
}

// ---------------------------------------------------------------------------
// Outcomes

/// One entry that stayed, as it is reported.
#[derive(Debug)]
pub struct FailureEntry {
    /// The path that was to be deleted.
    pub path: String,
    /// The entry that stayed.
    pub failed_path: String,
    pub error: String,
    pub os_code: Option<i32>,
    pub path_details: String,
}

/// What a run came to.
#[derive(Debug)]
pub struct RunOutcome {
    pub total: usize,
    pub succeeded: usize,
    pub failed: usize,
    pub failures: Vec<FailureEntry>,
}

/// The report on an entry that stayed while `path` was being deleted.
pub fn failure_entry(path: &String, issue: &PathDeleteError, path_details: String) -> (entry:
    FailureEntry)
    ensures
        entry.path == *path,
        entry.failed_path == issue.failed_path,
        entry.error@ == issue.error.text(),
        entry.os_code == issue.error.os_code(),
        entry.path_details == path_details,
{
    let error = issue.error.message();
    let os_code = issue.raw_os_error();
    let failed_path = issue.failed_path.clone();
    FailureEntry { path: path.clone(), failed_path, error, os_code, path_details }
}

/// The counts of a run under way.
#[derive(Debug)]
pub struct RunTally {
    pub total: usize,
    pub processed: usize,
    pub succeeded: usize,
    pub failed: usize,
    pub failures: Vec<FailureEntry>,
}

/// How many of the deletions left nothing behind.
pub open spec fn succeeded_in(results: Seq<Seq<FailureEntry>>) -> nat
    decreases results.len(),
{
    if results.len() == 0 {
        0
    } else {
        succeeded_in(results.drop_last()) + if results.last().len() == 0 {
            1nat
        } else {
            0
        }
    }
}

/// Everything that the deletions left behind.
pub open spec fn failures_in(results: Seq<Seq<FailureEntry>>) -> Seq<FailureEntry>
    decreases results.len(),
{
    if results.len() == 0 {
        seq![]
    } else {
        failures_in(results.drop_last()) + results.last()
    }
}

impl RunTally {
    /// Whether these are the counts after deletions that left behind `results`.
    pub open spec fn counts(self, results: Seq<Seq<FailureEntry>>) -> bool {
        &&& self.processed == results.len() <= self.total
        &&& self.succeeded == succeeded_in(results)
        &&& self.failed == results.len() - succeeded_in(results)
        &&& self.failures@ == failures_in(results)
    }

    /// The counts of a run of `total` deletions that has not begun.
    pub fn new(total: usize) -> (tally: RunTally)
        ensures
            tally.total == total,
            tally.counts(seq![]),
            tally.valid(),
    {
        RunTally { total, processed: 0, succeeded: 0, failed: 0, failures: Vec::new() }
    }

    /// Whether no deletion has been counted wrongly or twice.
    pub open spec fn valid(self) -> bool {
        self.processed == self.succeeded + self.failed && self.processed <= self.total
    }

    /// Counts one more deletion, which left `entries` behind. It went well where
    /// it left nothing.
    pub fn record(&mut self, entries: Vec<FailureEntry>)
        requires
            old(self).valid(),
            old(self).processed < old(self).total,
        ensures
            final(self).valid(),
            final(self).total == old(self).total,
            final(self).processed == old(self).processed + 1,
            final(self).succeeded == old(self).succeeded + if entries@.len() == 0 {
                1int
            } else {
                0
            },
            final(self).failed == old(self).failed + if entries@.len() == 0 {
                0int
            } else {
                1
            },
            final(self).failures@ == old(self).failures@ + entries@,
            forall|results: Seq<Seq<FailureEntry>>| #[trigger]
                old(self).counts(results) ==> final(self).counts(results.push(entries@)),
    {
        let ghost left = entries@;
        let mut entries = entries;
        if entries.len() == 0 {
            self.succeeded += 1;
        } else {
            self.failed += 1;
        }
        self.failures.append(&mut entries);
        self.processed += 1;
        proof {
            assert forall|results: Seq<Seq<FailureEntry>>| #[trigger]
                old(self).counts(results) implies self.counts(results.push(left)) by {
                assert(results.push(left).drop_last() =~= results);
            }
        }
    }

    /// What the run came to.
    pub fn outcome(self) -> (outcome: RunOutcome)
        ensures
            outcome == (RunOutcome {
                total: self.total,
                succeeded: self.succeeded,
                failed: self.failed,
                failures: self.failures,
            }),
    {
        RunOutcome {
            total: self.total,
            succeeded: self.succeeded,
            failed: self.failed,
            failures: self.failures,
        }
    }
}

proof fn lemma_no_more_succeed_than_ran(results: Seq<Seq<FailureEntry>>)
    ensures
        succeeded_in(results) <= results.len(),
        succeeded_in(results) == results.len() <==> failures_in(results).len() == 0,
    decreases results.len(),
{
    if results.len() > 0 {
        lemma_no_more_succeed_than_ran(results.drop_last());
    }
}

/// When every deletion has been counted, those that went well and those that
/// failed add up to the total, and some failed exactly where something stayed.
pub proof fn law_run_adds_up(tally: RunTally, results: Seq<Seq<FailureEntry>>)
    requires
        tally.counts(results),
        results.len() == tally.total,
    ensures
        tally.succeeded + tally.failed == tally.total,
        tally.failed > 0 <==> tally.failures@.len() > 0,
{
    lemma_no_more_succeed_than_ran(results);
}

proof fn lemma_taken_out(results: Seq<Seq<FailureEntry>>, i: int)
    requires
        0 <= i < results.len(),
    ensures
        succeeded_in(results) == succeeded_in(results.remove(i)) + if results[i].len() == 0 {
            1nat
        } else {
            0
        },
        failures_in(results).to_multiset() == failures_in(results.remove(i)).to_multiset().add(
            results[i].to_multiset(),
        ),
    decreases results.len(),
{
    let last = results.last();
    let front = results.drop_last();
    vstd::seq_lib::lemma_multiset_commutative(failures_in(front), last);
    if i == results.len() - 1 {
        assert(results.remove(i) =~= front);
    } else {
        lemma_taken_out(front, i);
        let rest = results.remove(i);
        assert(rest.drop_last() =~= front.remove(i));
        assert(rest.last() == last);
        vstd::seq_lib::lemma_multiset_commutative(failures_in(front.remove(i)), last);
        let a = failures_in(front.remove(i)).to_multiset();
        let b = results[i].to_multiset();
        let c = last.to_multiset();
        assert(a.add(b).add(c) =~= a.add(c).add(b));
    }
}

/// What a run comes to does not depend on the order in which its deletions end,
/// but for the order of the list of what stayed.
pub proof fn law_order_of_deletions_does_not_matter(
    results: Seq<Seq<FailureEntry>>,
    others: Seq<Seq<FailureEntry>>,
)
    requires
        results.to_multiset() == others.to_multiset(),
    ensures
        succeeded_in(results) == succeeded_in(others),
        failures_in(results).to_multiset() == failures_in(others).to_multiset(),
    decreases results.len(),
{
    results.to_multiset_ensures();
    others.to_multiset_ensures();
    assert(results.len() == others.len());
    if results.len() > 0 {
        let last = results.last();
        let n = results.len() - 1;
        assert(results.contains(last)) by {
            assert(results[n] == last);
        }
        assert(others.to_multiset().count(last) > 0);
        assert(others.contains(last));
        let i = choose|i: int| 0 <= i < others.len() && others[i] == last;
        assert(results.remove(n) =~= results.drop_last());
        assert(results.drop_last().to_multiset() == results.to_multiset().remove(last));
        assert(others.remove(i).to_multiset() == others.to_multiset().remove(last));
        law_order_of_deletions_does_not_matter(results.drop_last(), others.remove(i));
        lemma_taken_out(results, n);
        lemma_taken_out(others, i);
    }
}

// ---------------------------------------------------------------------------
// Summaries

pub open spec fn os_code_text(code: Option<i32>) -> Seq<char> {
    match code {
        Some(code) => signed_decimal(code as int),
        None => "unknown"@,
    }
}

/// One entry that stayed, on a line of the summary.
pub open spec fn failure_line(failure: FailureEntry) -> Seq<char> {
    "- target="@ + failure.path@ + " | failed_at="@ + failure.failed_path@ + " | "@
        + failure.error@ + " | win32="@ + os_code_text(failure.os_code) + " | "@
        + failure.path_details@ + "\n"@
}

pub open spec fn failure_lines(failures: Seq<FailureEntry>) -> Seq<char>
    decreases failures.len(),
{
    if failures.len() == 0 {
        seq![]
    } else {
        failure_lines(failures.drop_last()) + failure_line(failures.last())
    }
}

/// The counts at the head of the summary.
pub open spec fn summary_head(outcome: RunOutcome, dry_run: bool) -> Seq<char> {
    (if dry_run {
        "Mode: dry-run (nothing was deleted)\n"@
    } else {
        "Mode: delete\n"@
    }) + "Total: "@ + decimal(outcome.total as nat) + "\nSucceeded: "@ + decimal(
        outcome.succeeded as nat,
    ) + "\nFailed: "@ + decimal(outcome.failed as nat) + "\nSkipped entries: "@ + decimal(
        outcome.failures@.len(),
    ) + "\n"@
}

/// What a run came to, as the user sees it.
pub open spec fn summary(outcome: RunOutcome, dry_run: bool) -> Seq<char> {
    if outcome.failures@.len() == 0 {
        summary_head(outcome, dry_run)
    } else {
        summary_head(outcome, dry_run) + "\nSkipped/Failed entries:\n"@ + failure_lines(
            outcome.failures@,
        )
    }
}

fn failure_line_text(failure: &FailureEntry) -> (out: String)
    ensures
        out@ == failure_line(*failure),
{
    let code = match failure.os_code {
        Some(code) => signed_decimal_text(code),
        None => "unknown".to_owned(),
    };
    "- target=".to_owned().concat(failure.path.as_str()).concat(" | failed_at=").concat(
        failure.failed_path.as_str(),
    ).concat(" | ").concat(failure.error.as_str()).concat(" | win32=").concat(code.as_str()).concat(
        " | ",
    ).concat(failure.path_details.as_str()).concat("\n")
}

/// Writes the summary of a run.
pub fn summary_text(outcome: &RunOutcome, dry_run: bool) -> (out: String)
    ensures
        out@ == summary(*outcome, dry_run),
{
    let mode = if dry_run {
        "Mode: dry-run (nothing was deleted)\n"
    } else {
        "Mode: delete\n"
    };
    let total = decimal_text(outcome.total as u64);
    let succeeded = decimal_text(outcome.succeeded as u64);
    let failed = decimal_text(outcome.failed as u64);
    let skipped = decimal_text(outcome.failures.len() as u64);
    let head = mode.to_owned().concat("Total: ").concat(total.as_str()).concat(
        "\nSucceeded: ",
    ).concat(succeeded.as_str()).concat("\nFailed: ").concat(failed.as_str()).concat(
        "\nSkipped entries: ",
    ).concat(skipped.as_str()).concat("\n");
    if outcome.failures.len() == 0 {
        return head;
    }
    let mut out = head.concat("\nSkipped/Failed entries:\n");
    let ghost start = out@;
    let ghost failures = outcome.failures@;
    let mut i: usize = 0;
    assert(failures.take(0) =~= seq![]);
    assert(start + seq![] =~= start);
    while i < outcome.failures.len()
        invariant
            i <= outcome.failures.len(),
            failures == outcome.failures@,
            out@ == start + failure_lines(failures.take(i as int)),
        decreases outcome.failures.len() - i,
    {
        let line = failure_line_text(&outcome.failures[i]);
        out.append(line.as_str());
        assert(failures.take(i as int + 1).drop_last() =~= failures.take(i as int));
        assert(failures.take(i as int + 1).last() == failures[i as int]);
        i += 1;
    }
    assert(failures.take(i as int) =~= failures);
    out
}

/// The counts beside the progress bar.
pub fn progress_message(succeeded: usize, failed: usize) -> (out: String)
    ensures
        out@ == "ok: "@ + decimal(succeeded as nat) + " fail: "@ + decimal(failed as nat),
{
    let ok = decimal_text(succeeded as u64);
    let fail = decimal_text(failed as u64);
    "ok: ".to_owned().concat(ok.as_str()).concat(" fail: ").concat(fail.as_str())
}

/// Whether a progress bar is shown: where it is wanted and there is a terminal.
pub fn shows_progress(progress_enabled: bool, is_terminal: bool) -> (shown: bool)
    ensures
        shown == (progress_enabled && is_terminal),
{
    progress_enabled && is_terminal
}

// ---------------------------------------------------------------------------
// What holds of single failures and entries

/// What another try can mend is told by the kind of the error or by four codes of
/// Windows; what a repair of permissions can mend, by one kind and one code. What
/// a repair can mend, another try can mend.
pub proof fn law_what_can_be_mended(err: IoError)
    ensures
        retriable(err) <==> (err.kind is PermissionDenied || err.kind is WouldBlock || (
        err.os_code matches Some(code) && (code == 5 || code == 32 || code == 33 || code == 145))),
        repairable(err) <==> (err.kind is PermissionDenied || (err.os_code matches Some(code)
            && code == 5)),
        repairable(err) ==> retriable(err),
{
}

/// A directory leads elsewhere if it is a link, and on Windows if its bit for
/// reparse points is set, whatever its other bits are. Nothing else does.
pub proof fn law_reparse_points_have_their_bit(platform: Platform, metadata: FileMeta)
    ensures
        !metadata.is_dir ==> !leads_elsewhere(platform, metadata),
        metadata.is_dir && metadata.is_symlink ==> leads_elsewhere(platform, metadata),
        metadata.is_dir && !metadata.is_symlink ==> (leads_elsewhere(platform, metadata) <==> (
        platform is Windows && metadata.attributes & 0x0400u32 != 0)),
{
}

/// The attributes that are named are those whose bits are set, in the order of
/// the bits.
pub proof fn law_flags_are_named_by_their_bits(attrs: u32)
    ensures
        flag_names(attrs) == (if attrs & 0x0001u32 != 0 {
            seq!["READONLY"@]
        } else {
            seq![]
        }) + (if attrs & 0x0002u32 != 0 {
            seq!["HIDDEN"@]
        } else {
            seq![]
        }) + (if attrs & 0x0004u32 != 0 {
            seq!["SYSTEM"@]
        } else {
            seq![]
        }) + (if attrs & 0x0010u32 != 0 {
            seq!["DIRECTORY"@]
        } else {
            seq![]
        }) + (if attrs & 0x0020u32 != 0 {
            seq!["ARCHIVE"@]
        } else {
            seq![]
        }) + (if attrs & 0x0400u32 != 0 {
            seq!["REPARSE_POINT"@]
        } else {
            seq![]
        }),
        attrs & 0x0437u32 == 0 ==> flags_text(attrs) == "NONE"@,
        attrs & 0x0437u32 != 0 ==> flags_text(attrs) == joined(flag_names(attrs), "|"@),
{
    assert(attrs & 0x0437u32 == 0 <==> (attrs & 0x0001u32 == 0 && attrs & 0x0002u32 == 0 && attrs
        & 0x0004u32 == 0 && attrs & 0x0010u32 == 0 && attrs & 0x0020u32 == 0 && attrs & 0x0400u32
        == 0)) by (bit_vector);
}

/// What is said of an entry that stayed names what it is and whether it is
/// read-only, and on Windows its attributes; of one that cannot be looked at, why.
pub proof fn law_details_say_what_is_there(platform: Platform, metadata: FileMeta, err: IoError)
    ensures
        ({
            let kind = if metadata.is_symlink {
                "symlink"@
            } else if metadata.is_dir {
                "dir"@
            } else if metadata.is_file {
                "file"@
            } else {
                "other"@
            };
            let common = "exists=true kind="@ + kind + " readonly="@ + (if metadata.readonly {
                "true"@
            } else {
                "false"@
            });
            &&& platform is Windows ==> details(platform, Ok(metadata)) == common + " attrs=0x"@
                + hex8(metadata.attributes) + " flags="@ + flags_text(metadata.attributes)
            &&& !(platform is Windows) ==> details(platform, Ok(metadata)) == common
            &&& details(platform, Err(err)) == "exists=false metadata_error="@ + err.text@
        }),
{
}

/// A failed deletion says what failed and what the system said of it, and has its
/// code; a missing path has none.
pub proof fn law_deletion_errors_keep_what_the_system_said(err: IoError)
    ensures
        DeleteError::Missing.text() == "path does not exist"@,
        DeleteError::Missing.os_code() is None,
        DeleteError::Metadata(err).text() == "failed to read metadata: "@ + err.text@,
        DeleteError::RemoveFile(err).text() == "failed to delete file: "@ + err.text@,
        DeleteError::RemoveDir(err).text() == "failed to delete directory: "@ + err.text@,
        DeleteError::Metadata(err).os_code() == err.os_code,
        DeleteError::RemoveFile(err).os_code() == err.os_code,
        DeleteError::RemoveDir(err).os_code() == err.os_code,
{
}

/// One more deletion adds what it left behind to the list, and counts as having
/// gone well exactly if it left nothing.
pub proof fn law_each_deletion_counts(
    tally: RunTally,
    results: Seq<Seq<FailureEntry>>,
    left: Seq<FailureEntry>,
)
    ensures
        succeeded_in(seq![]) == 0,
        failures_in(seq![]) == Seq::<FailureEntry>::empty(),
        succeeded_in(results.push(left)) == succeeded_in(results) + (if left.len() == 0 {
            1nat
        } else {
            0
        }),
        failures_in(results.push(left)) == failures_in(results) + left,
        tally.counts(results) ==> {
            &&& tally.processed == results.len()
            &&& tally.succeeded == succeeded_in(results)
            &&& tally.succeeded + tally.failed == results.len()
            &&& tally.failures@ == failures_in(results)
        },
{
    assert(results.push(left).drop_last() =~= results);
}

/// The summary begins with the mode and the counts, and has one line for each
/// entry that stayed, in order.
pub proof fn law_summary_lists_what_stayed(
    outcome: RunOutcome,
    dry_run: bool,
    failures: Seq<FailureEntry>,
    failure: FailureEntry,
)
    ensures
        ({
            let counts = "Total: "@ + decimal(outcome.total as nat) + "\nSucceeded: "@ + decimal(
                outcome.succeeded as nat,
            ) + "\nFailed: "@ + decimal(outcome.failed as nat) + "\nSkipped entries: "@ + decimal(
                outcome.failures@.len(),
            ) + "\n"@;
            let mode = if dry_run {
                "Mode: dry-run (nothing was deleted)\n"@
            } else {
                "Mode: delete\n"@
            };
            &&& outcome.failures@.len() == 0 ==> summary(outcome, dry_run) =~= mode + counts
            &&& outcome.failures@.len() > 0 ==> summary(outcome, dry_run) =~= mode + counts
                + "\nSkipped/Failed entries:\n"@ + failure_lines(outcome.failures@)
        }),
        failure_lines(failures.push(failure)) == failure_lines(failures) + failure_line(failure),
        failure_lines(seq![]) == Seq::<char>::empty(),
        ({
            let code = match failure.os_code {
                Some(code) => signed_decimal(code as int),
                None => "unknown"@,
            };
            failure_line(failure) == "- target="@ + failure.path@ + " | failed_at="@
                + failure.failed_path@ + " | "@ + failure.error@ + " | win32="@ + code + " | "@
                + failure.path_details@ + "\n"@
        }),
{
    assert(failures.push(failure).drop_last() =~= failures);
}

} // verus!
