//! Runs of deletions: what is deleted, how, and what is reported of it.
use crate::cli::{Cli, DeleteStrategy};
use crate::config::{resolve_target_paths, CleanerConfig, TargetPaths};
use crate::delete::{failure_entry, FailureEntry, PathDeleteError, RunTally};
use crate::platform::Platform;
use crate::walk::{delete_path, DeletePath, Walk};
use vstd::prelude::*;

verus! {

/// The paths of a run and how they are deleted.
#[derive(Debug)]
pub struct DeletionRun {
    pub paths: Vec<String>,
    pub dry_run: bool,
    pub repair_permissions: bool,
    pub strategy: DeleteStrategy,
}

/// The start of a run, which may need the config file to know its paths.
#[derive(Debug)]
pub enum RunStart {
    Ready(DeletionRun),
    /// The config file at `path` names the paths.
    NeedsConfig { path: String },
}

impl DeletionRun {
    /// Whether the run deletes `paths` as the command line says.
    pub open spec fn follows(self, cli: Cli, paths: Seq<String>) -> bool {
        &&& self.paths@ == paths
        &&& self.dry_run == cli.dry_run
        &&& self.repair_permissions == cli.repair_permissions
        &&& self.strategy == cli.delete_strategy
    }

    fn of(cli: &Cli, paths: Vec<String>) -> (run: DeletionRun)
        ensures
            run.follows(*cli, paths@),
    {
        DeletionRun {
            paths,
            dry_run: cli.dry_run,
            repair_permissions: cli.repair_permissions,
            strategy: cli.delete_strategy,
        }
    }

    /// Goes on with what the config file holds.
    pub fn configured(cli: &Cli, config: CleanerConfig) -> (run: DeletionRun)
        ensures
            run.follows(*cli, config.paths@),
    {
        DeletionRun::of(cli, config.paths)
    }

    /// The counts of the run before anything is deleted.
    pub fn tally(&self) -> (tally: RunTally)
        ensures
            tally.total == self.paths@.len(),
            tally.counts(seq![]),
            tally.valid(),
    {
        RunTally::new(self.paths.len())
    }

    /// The deletion of one of the paths. Without that path there is none.
    pub fn deletion(&self, platform: Platform, index: usize) -> (walk: Option<DeletePath>)
        ensures
            match walk {
                Some(walk) => {
                    &&& index < self.paths@.len()
                    &&& walk@.valid()
                    &&& walk@ == Walk::fresh(
                        platform,
                        self.paths@[index as int],
                        self.dry_run,
                        self.repair_permissions,
                        self.strategy,
                    )
                },
                None => index >= self.paths@.len(),
            },
    {
        if index < self.paths.len() {
            Some(
                delete_path(
                    platform,
                    self.paths[index].clone(),
                    self.dry_run,
                    self.repair_permissions,
                    self.strategy,
                ),
            )
        } else {
            None
        }
    }
}

/// Starts a run of deletions: of the paths on the command line, or else of those
/// that the config file names.
pub fn run(cli: &Cli) -> (start: RunStart)
    ensures
        if cli.paths@.len() > 0 {
            start matches RunStart::Ready(run) && run.follows(*cli, cli.paths@)
        } else {
            start == (RunStart::NeedsConfig { path: cli.config })
        },
{
    match resolve_target_paths(cli) {
        TargetPaths::Direct(paths) => RunStart::Ready(DeletionRun::of(cli, paths)),
        TargetPaths::InConfig(path) => RunStart::NeedsConfig { path },
    }
}

/// Whether `entry` reports `issue`, which came up while `path` was being deleted.
pub open spec fn reports(
    entry: FailureEntry,
    path: String,
    issue: PathDeleteError,
    details: String,
) -> bool {
    &&& entry.path == path
    &&& entry.failed_path == issue.failed_path
    &&& entry.error@ == issue.error.text()
    &&& entry.os_code == issue.error.os_code()
    &&& entry.path_details == details
}

/// The reports on what stayed while `path` was being deleted, one for each issue
/// and in the same order; `details` says of each issue what is at its path now.
pub fn failure_entries(
    path: &String,
    issues: &Vec<PathDeleteError>,
    details: &Vec<String>,
) -> (entries: Vec<FailureEntry>)
    requires
        issues@.len() == details@.len(),
    ensures
        entries@.len() == issues@.len(),
        forall|i: int|
            0 <= i < issues@.len() ==> reports(
                #[trigger] entries@[i],
                *path,
                issues@[i],
                details@[i],
            ),
{
    let mut entries: Vec<FailureEntry> = Vec::new();
    let mut i: usize = 0;
    while i < issues.len()
        invariant
            i <= issues@.len() == details@.len(),
            entries@.len() == i,
            forall|j: int|
                0 <= j < i ==> reports(#[trigger] entries@[j], *path, issues@[j], details@[j]),
        decreases issues.len() - i,
    {
        entries.push(failure_entry(path, &issues[i], details[i].clone()));
        i += 1;
    }
    entries
}

/// A run deletes as the command line says.
pub proof fn law_run_follows_the_command_line(run: DeletionRun, cli: Cli, paths: Seq<String>)
    requires
        run.follows(cli, paths),
    ensures
        run.paths@ == paths,
        run.dry_run <==> cli.dry_run,
        run.repair_permissions <==> cli.repair_permissions,
        run.strategy == cli.delete_strategy,
{
}

/// A report is on the path that was to be deleted and on the entry that stayed,
/// with the reason, its code, and what is there now.
pub proof fn law_report_is_on_the_entry_that_stayed(
    entry: FailureEntry,
    path: String,
    issue: PathDeleteError,
    details: String,
)
    requires
        reports(entry, path, issue, details),
    ensures
        entry.path == path,
        entry.failed_path == issue.failed_path,
        entry.error@ == issue.error.text(),
        entry.os_code == issue.error.os_code(),
        entry.path_details == details,
{
}

} // verus!
