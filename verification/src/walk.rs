//! Deleting one path, entry by entry where that is asked for.
use crate::cli::DeleteStrategy;
use crate::delete::{
    is_directory_reparse_point, leads_elsewhere, DeleteError, PathDeleteError,
};
use crate::fault::{ErrorKind, FileMeta, IoError};
use crate::platform::Platform;
use crate::removal::RemovalKind;
use vstd::prelude::*;

verus! {

/// The code for a directory that is not empty.
pub const DIRECTORY_NOT_EMPTY: i32 = 145;

/// A directory whose entries are being deleted.
#[derive(Debug)]
pub struct Frame {
    pub path: String,
    /// How many issues there were when the directory was opened.
    pub issues_before: usize,
}

/// Where a deletion stands.
#[derive(Debug)]
pub enum WalkStage {
    /// The path itself is being looked at.
    Starting,
    /// This directory is being opened.
    Opening { path: String },
    /// The next entry of the innermost directory is being read.
    Listing,
    /// This entry of the innermost directory is being looked at.
    Inspecting { path: String },
    /// This entry is being removed.
    Removing { path: String, kind: RemovalKind },
    /// The innermost directory itself is being removed.
    Closing,
    Finished,
}

/// The deletion of one path.
#[derive(Debug)]
pub struct DeletePath {
    pub platform: Platform,
    pub path: String,
    pub dry_run: bool,
    pub repair_permissions: bool,
    pub strategy: DeleteStrategy,
    /// The directories that are open, the innermost last.
    pub frames: Vec<Frame>,
    pub issues: Vec<PathDeleteError>,
    pub stage: WalkStage,
}

/// What a deletion asks for.
#[derive(Debug)]
pub enum WalkRequest {
    /// What the path is, without following a link.
    SymlinkMetadata { path: String },
    /// A listing of the directory, which is the innermost from then on.
    OpenDir { path: String, repair_permissions: bool },
    /// The next entry of the innermost listing, which ends with it.
    NextEntry,
    /// A removal, by the rules of [`crate::removal`].
    Remove { path: String, kind: RemovalKind, repair_permissions: bool },
}

/// The answer to a request of a deletion.
#[derive(Debug)]
pub enum WalkReply {
    Metadata(Result<FileMeta, IoError>),
    Opened(Result<(), IoError>),
    Entry(Option<Result<String, IoError>>),
    Removed(Result<(), IoError>),
}

/// A directory whose entries are being deleted, with a count of issues.
pub struct Level {
    pub path: String,
    pub issues_before: nat,
}

/// A deletion under way.
#[verifier::ext_equal]
pub struct Walk {
    pub platform: Platform,
    pub path: String,
    pub dry_run: bool,
    pub repair_permissions: bool,
    pub strategy: DeleteStrategy,
    pub levels: Seq<Level>,
    pub issues: Seq<PathDeleteError>,
    pub stage: WalkStage,
}

impl View for Frame {
    type V = Level;

    open spec fn view(&self) -> Level {
        Level { path: self.path, issues_before: self.issues_before as nat }
    }
}

impl View for DeletePath {
    type V = Walk;

    open spec fn view(&self) -> Walk {
        Walk {
            platform: self.platform,
            path: self.path,
            dry_run: self.dry_run,
            repair_permissions: self.repair_permissions,
            strategy: self.strategy,
            levels: self.frames@.map_values(|f: Frame| f@),
            issues: self.issues@,
            stage: self.stage,
        }
    }
}

/// An entry that could not be looked at: it is gone, or its metadata is out of
/// reach.
pub open spec fn unseen(path: String, err: IoError) -> PathDeleteError {
    PathDeleteError {
        failed_path: path,
        error: if err.kind == ErrorKind::NotFound {
            DeleteError::Missing
        } else {
            DeleteError::Metadata(err)
        },
    }
}

/// An entry that could not be removed.
pub open spec fn unremoved(path: String, kind: RemovalKind, err: IoError) -> PathDeleteError {
    PathDeleteError {
        failed_path: path,
        error: if kind is File {
            DeleteError::RemoveFile(err)
        } else {
            DeleteError::RemoveDir(err)
        },
    }
}

/// Whether a directory stays only because entries in it stay.
pub open spec fn stays_for_its_entries(entry_issues: bool, err: IoError) -> bool {
    entry_issues && err.os_code == Some(DIRECTORY_NOT_EMPTY)
}

impl Walk {
    pub open spec fn fresh(
        platform: Platform,
        path: String,
        dry_run: bool,
        repair_permissions: bool,
        strategy: DeleteStrategy,
    ) -> Walk {
        Walk {
            platform,
            path,
            dry_run,
            repair_permissions,
            strategy,
            levels: seq![],
            issues: seq![],
            stage: WalkStage::Starting,
        }
    }

    /// Entries are read and directories closed only where one is open.
    pub open spec fn valid(self) -> bool {
        match self.stage {
            WalkStage::Starting => self.levels.len() == 0,
            WalkStage::Listing => self.levels.len() > 0,
            WalkStage::Inspecting { .. } => self.levels.len() > 0,
            WalkStage::Closing => self.levels.len() > 0,
            WalkStage::Finished => self.levels.len() == 0,
            _ => true,
        }
    }

    /// What is asked for next.
    pub open spec fn asks(self) -> Option<WalkRequest> {
        match self.stage {
            WalkStage::Starting => Some(WalkRequest::SymlinkMetadata { path: self.path }),
            WalkStage::Opening { path } => Some(
                WalkRequest::OpenDir { path, repair_permissions: self.repair_permissions },
            ),
            WalkStage::Listing => Some(WalkRequest::NextEntry),
            WalkStage::Inspecting { path } => Some(WalkRequest::SymlinkMetadata { path }),
            WalkStage::Removing { path, kind } => Some(
                WalkRequest::Remove { path, kind, repair_permissions: self.repair_permissions },
            ),
            WalkStage::Closing => Some(
                WalkRequest::Remove {
                    path: self.levels.last().path,
                    kind: RemovalKind::Node,
                    repair_permissions: self.repair_permissions,
                },
            ),
            WalkStage::Finished => None,
        }
    }

    /// Whether `reply` answers what is asked for.
    pub open spec fn awaits(self, reply: WalkReply) -> bool {
        match self.stage {
            WalkStage::Starting => reply is Metadata,
            WalkStage::Opening { .. } => reply is Opened,
            WalkStage::Listing => reply is Entry,
            WalkStage::Inspecting { .. } => reply is Metadata,
            WalkStage::Removing { .. } => reply is Removed,
            WalkStage::Closing => reply is Removed,
            WalkStage::Finished => false,
        }
    }

    /// An entry is dealt with: the next one of the innermost directory follows.
    pub open spec fn up(self) -> Walk {
        if self.levels.len() > 0 {
            Walk { stage: WalkStage::Listing, ..self }
        } else {
            Walk { stage: WalkStage::Finished, ..self }
        }
    }

    pub open spec fn with_issue(self, issue: PathDeleteError) -> Walk {
        Walk { issues: self.issues.push(issue), ..self }
    }

    /// An entry is known: a link and a file are removed, a directory is opened,
    /// or removed whole where `whole` says so.
    pub open spec fn seen(self, path: String, metadata: FileMeta, whole: bool) -> Walk {
        Walk {
            stage: if !metadata.is_dir {
                WalkStage::Removing {
                    path,
                    kind: RemovalKind::File { was_readonly: metadata.readonly },
                }
            } else if leads_elsewhere(self.platform, metadata) {
                WalkStage::Removing { path, kind: RemovalKind::Link }
            } else if whole {
                WalkStage::Removing { path, kind: RemovalKind::Tree }
            } else {
                WalkStage::Opening { path }
            },
            ..self
        }
    }

    /// The deletion once `reply` has come in.
    pub open spec fn after(self, reply: WalkReply) -> Walk {
        match (self.stage, reply) {
            (WalkStage::Starting, WalkReply::Metadata(Err(err))) => self.with_issue(
                unseen(self.path, err),
            ).up(),
            (WalkStage::Starting, WalkReply::Metadata(Ok(metadata))) => if self.dry_run {
                self.up()
            } else {
                self.seen(self.path, metadata, self.strategy == DeleteStrategy::Native)
            },
            (WalkStage::Opening { path }, WalkReply::Opened(Err(err))) => self.with_issue(
                unremoved(path, RemovalKind::Node, err),
            ).up(),
            (WalkStage::Opening { path }, WalkReply::Opened(Ok(_))) => Walk {
                levels: self.levels.push(Level { path, issues_before: self.issues.len() }),
                stage: WalkStage::Listing,
                ..self
            },
            (WalkStage::Listing, WalkReply::Entry(None)) => Walk {
                stage: WalkStage::Closing,
                ..self
            },
            (WalkStage::Listing, WalkReply::Entry(Some(Err(err)))) => self.with_issue(
                unremoved(self.levels.last().path, RemovalKind::Node, err),
            ),
            (WalkStage::Listing, WalkReply::Entry(Some(Ok(path)))) => Walk {
                stage: WalkStage::Inspecting { path },
                ..self
            },
            (WalkStage::Inspecting { path }, WalkReply::Metadata(Err(err))) => self.with_issue(
                unseen(path, err),
            ).up(),
            (WalkStage::Inspecting { path }, WalkReply::Metadata(Ok(metadata))) => self.seen(
                path,
                metadata,
                false,
            ),
            (WalkStage::Removing { path, kind }, WalkReply::Removed(Err(err))) => self.with_issue(
                unremoved(path, kind, err),
            ).up(),
            (WalkStage::Removing { .. }, WalkReply::Removed(Ok(_))) => self.up(),
            (WalkStage::Closing, WalkReply::Removed(result)) => {
                let closed = Walk { levels: self.levels.drop_last(), ..self };
                let level = self.levels.last();
                match result {
                    Ok(_) => closed.up(),
                    Err(err) => if stays_for_its_entries(
                        self.issues.len() > level.issues_before,
                        err,
                    ) {
                        closed.up()
                    } else {
                        closed.with_issue(unremoved(level.path, RemovalKind::Node, err)).up()
                    },
                }
            },
            _ => self,
        }
    }
}

fn unseen_issue(path: String, err: IoError) -> (issue: PathDeleteError)
    ensures
        issue == unseen(path, err),
{
    if err.kind == ErrorKind::NotFound {
        PathDeleteError::new(path, DeleteError::Missing)
    } else {
        PathDeleteError::new(path, DeleteError::Metadata(err))
    }
}

fn unremoved_issue(path: String, kind: RemovalKind, err: IoError) -> (issue: PathDeleteError)
    ensures
        issue == unremoved(path, kind, err),
{
    match kind {
        RemovalKind::File { .. } => PathDeleteError::new(path, DeleteError::RemoveFile(err)),
        _ => PathDeleteError::new(path, DeleteError::RemoveDir(err)),
    }
}

impl DeletePath {
    /// What is to be done next; nothing once the deletion is finished.
    pub fn request(&self) -> (request: Option<WalkRequest>)
        requires
            self@.valid(),
        ensures
            request == self@.asks(),
    {
        match &self.stage {
            WalkStage::Starting => Some(WalkRequest::SymlinkMetadata { path: self.path.clone() }),
            WalkStage::Opening { path } => Some(
                WalkRequest::OpenDir {
                    path: path.clone(),
                    repair_permissions: self.repair_permissions,
                },
            ),
            WalkStage::Listing => Some(WalkRequest::NextEntry),
            WalkStage::Inspecting { path } => Some(
                WalkRequest::SymlinkMetadata { path: path.clone() },
            ),
            WalkStage::Removing { path, kind } => Some(
                WalkRequest::Remove {
                    path: path.clone(),
                    kind: *kind,
                    repair_permissions: self.repair_permissions,
                },
            ),
            WalkStage::Closing => Some(
                WalkRequest::Remove {
                    path: self.frames[self.frames.len() - 1].path.clone(),
                    kind: RemovalKind::Node,
                    repair_permissions: self.repair_permissions,
                },
            ),
            WalkStage::Finished => None,
        }
    }

    fn go_up(&mut self)
        ensures
            final(self)@ == old(self)@.up(),
    {
        if self.frames.len() > 0 {
            self.stage = WalkStage::Listing;
        } else {
            self.stage = WalkStage::Finished;
        }
    }

    fn see(&mut self, path: String, metadata: FileMeta, whole: bool)
        ensures
            final(self)@ == old(self)@.seen(path, metadata, whole),
    {
        self.stage = if !metadata.is_dir {
            WalkStage::Removing {
                path,
                kind: RemovalKind::File { was_readonly: metadata.readonly },
            }
        } else if is_directory_reparse_point(self.platform, &metadata) {
            WalkStage::Removing { path, kind: RemovalKind::Link }
        } else if whole {
            WalkStage::Removing { path, kind: RemovalKind::Tree }
        } else {
            WalkStage::Opening { path }
        };
    }

    fn add_issue(&mut self, issue: PathDeleteError)
        ensures
            final(self)@ == old(self)@.with_issue(issue),
    {
        self.issues.push(issue);
    }

    /// Goes on with the answer to the last request.
    pub fn resume(&mut self, reply: WalkReply)
        requires
            old(self)@.valid(),
            old(self)@.awaits(reply),
        ensures
            final(self)@ == old(self)@.after(reply),
            final(self)@.valid(),
    {
        let mut stage = WalkStage::Finished;
        std::mem::swap(&mut stage, &mut self.stage);
        match (stage, reply) {
            (WalkStage::Starting, WalkReply::Metadata(Err(err))) => {
                let path = self.path.clone();
                self.add_issue(unseen_issue(path, err));
                self.go_up();
            },
            (WalkStage::Starting, WalkReply::Metadata(Ok(metadata))) => {
                if self.dry_run {
                    self.go_up();
                } else {
                    let path = self.path.clone();
                    let whole = self.strategy == DeleteStrategy::Native;
                    self.see(path, metadata, whole);
                }
            },
            (WalkStage::Opening { path }, WalkReply::Opened(Err(err))) => {
                self.add_issue(unremoved_issue(path, RemovalKind::Node, err));
                self.go_up();
            },
            (WalkStage::Opening { path }, WalkReply::Opened(Ok(_))) => {
                let issues_before: usize = self.issues.len();
                self.frames.push(Frame { path, issues_before });
                self.stage = WalkStage::Listing;
            },
            (WalkStage::Listing, WalkReply::Entry(None)) => {
                self.stage = WalkStage::Closing;
            },
            (WalkStage::Listing, WalkReply::Entry(Some(Err(err)))) => {
                let path = self.frames[self.frames.len() - 1].path.clone();
                self.add_issue(unremoved_issue(path, RemovalKind::Node, err));
                self.stage = WalkStage::Listing;
            },
            (WalkStage::Listing, WalkReply::Entry(Some(Ok(path)))) => {
                self.stage = WalkStage::Inspecting { path };
            },
            (WalkStage::Inspecting { path }, WalkReply::Metadata(Err(err))) => {
                self.add_issue(unseen_issue(path, err));
                self.go_up();
            },
            (WalkStage::Inspecting { path }, WalkReply::Metadata(Ok(metadata))) => {
                self.see(path, metadata, false);
            },
            (WalkStage::Removing { path, kind }, WalkReply::Removed(Err(err))) => {
                self.add_issue(unremoved_issue(path, kind, err));
                self.go_up();
            },
            (WalkStage::Removing { .. }, WalkReply::Removed(Ok(_))) => {
                self.go_up();
            },
            (WalkStage::Closing, WalkReply::Removed(result)) => {
                let ghost levels = self@.levels;
                if let Some(frame) = self.frames.pop() {
                    assert(self@.levels =~= levels.drop_last());
                    if let Err(err) = result {
                        let entry_issues = self.issues.len() > frame.issues_before;
                        let not_empty = match err.raw_os_error() {
                            Some(code) => code == DIRECTORY_NOT_EMPTY,
                            None => false,
                        };
                        if !(entry_issues && not_empty) {
                            self.add_issue(unremoved_issue(frame.path, RemovalKind::Node, err));
                        }
                    }
                }
                self.go_up();
            },
            (stage, _) => {
                self.stage = stage;
            },
        }
    }

    /// What stayed behind.
    pub fn into_issues(self) -> (issues: Vec<PathDeleteError>)
        ensures
            issues@ == self@.issues,
    {
        self.issues
    }
}

/// Deletes a path: a file or a link by itself, a directory as `strategy` says.
pub fn delete_path(
    platform: Platform,
    path: String,
    dry_run: bool,
    repair_permissions: bool,
    strategy: DeleteStrategy,
) -> (walk: DeletePath)
    ensures
        walk@ == Walk::fresh(platform, path, dry_run, repair_permissions, strategy),
        walk@.valid(),
{
    let walk = DeletePath {
        platform,
        path,
        dry_run,
        repair_permissions,
        strategy,
        frames: Vec::new(),
        issues: Vec::new(),
        stage: WalkStage::Starting,
    };
    assert(walk@.levels =~= seq![]);
    walk
}

// ---------------------------------------------------------------------------
// Whole deletions

/// What the file system has in store for one entry of a directory.
pub enum Answer {
    /// The entry cannot be read from the listing.
    Unlisted { error: IoError },
    /// The entry is listed and cannot be looked at.
    Unseen { path: String, error: IoError },
    /// A file or a link, and how its removal goes.
    Single { path: String, metadata: FileMeta, removal: Result<(), IoError> },
    /// A directory: how opening it goes, what is in it, and how its own removal
    /// goes in the end.
    Directory {
        path: String,
        metadata: FileMeta,
        opening: Result<(), IoError>,
        entries: Seq<Answer>,
        removal: Result<(), IoError>,
    },
}

/// Whether a directory with this metadata is gone through entry by entry.
pub open spec fn is_entered(platform: Platform, metadata: FileMeta) -> bool {
    metadata.is_dir && !leads_elsewhere(platform, metadata)
}

/// Files and links are answered as such, and directories as directories.
pub open spec fn consistent(platform: Platform, answer: Answer) -> bool
    decreases answer,
{
    match answer {
        Answer::Single { metadata, .. } => !is_entered(platform, metadata),
        Answer::Directory { metadata, entries, .. } => is_entered(platform, metadata)
            && all_consistent(platform, entries),
        _ => true,
    }
}

pub open spec fn all_consistent(platform: Platform, entries: Seq<Answer>) -> bool
    decreases entries,
{
    entries.len() > 0 ==> all_consistent(platform, entries.drop_last()) && consistent(
        platform,
        entries[entries.len() - 1],
    )
}

/// What a file or link is removed as.
pub open spec fn single_kind(metadata: FileMeta) -> RemovalKind {
    if metadata.is_dir {
        RemovalKind::Link
    } else {
        RemovalKind::File { was_readonly: metadata.readonly }
    }
}

/// The issues of the directory at `path`, given those of its entries: its own
/// comes last, and only where it has a reason of its own.
pub open spec fn own_issue(
    path: String,
    inner: Seq<PathDeleteError>,
    removal: Result<(), IoError>,
) -> Seq<PathDeleteError> {
    match removal {
        Ok(_) => inner,
        Err(err) => if stays_for_its_entries(inner.len() > 0, err) {
            inner
        } else {
            inner.push(unremoved(path, RemovalKind::Node, err))
        },
    }
}

/// The issues of deleting the directory at `path` entry by entry.
pub open spec fn directory_issues(
    path: String,
    opening: Result<(), IoError>,
    entries: Seq<Answer>,
    removal: Result<(), IoError>,
) -> Seq<PathDeleteError>
    decreases entries, 1int,
{
    match opening {
        Err(err) => seq![unremoved(path, RemovalKind::Node, err)],
        Ok(_) => own_issue(path, entries_issues(path, entries), removal),
    }
}

/// The issues of the entries of the directory `dir`, in the order of the
/// listing.
pub open spec fn entries_issues(dir: String, entries: Seq<Answer>) -> Seq<PathDeleteError>
    decreases entries, 0int,
{
    if entries.len() == 0 {
        seq![]
    } else {
        entries_issues(dir, entries.drop_last()) + entry_issues(dir, entries[entries.len() - 1])
    }
}

/// The issues of one entry of the directory `dir`.
pub open spec fn entry_issues(dir: String, answer: Answer) -> Seq<PathDeleteError>
    decreases answer, 0int,
{
    match answer {
        Answer::Unlisted { error } => seq![unremoved(dir, RemovalKind::Node, error)],
        Answer::Unseen { path, error } => seq![unseen(path, error)],
        Answer::Single { path, metadata, removal } => match removal {
            Ok(_) => seq![],
            Err(err) => seq![unremoved(path, single_kind(metadata), err)],
        },
        Answer::Directory { path, opening, entries, removal, .. } => directory_issues(
            path,
            opening,
            entries,
            removal,
        ),
    }
}

/// The replies in the course of deleting a directory entry by entry, from its
/// opening on.
pub open spec fn directory_replies(
    opening: Result<(), IoError>,
    entries: Seq<Answer>,
    removal: Result<(), IoError>,
) -> Seq<WalkReply>
    decreases entries, 1int,
{
    match opening {
        Err(_) => seq![WalkReply::Opened(opening)],
        Ok(_) => seq![WalkReply::Opened(opening)] + entries_replies(entries) + seq![
            WalkReply::Entry(None),
            WalkReply::Removed(removal),
        ],
    }
}

pub open spec fn entries_replies(entries: Seq<Answer>) -> Seq<WalkReply>
    decreases entries, 0int,
{
    if entries.len() == 0 {
        seq![]
    } else {
        entries_replies(entries.drop_last()) + entry_replies(entries[entries.len() - 1])
    }
}

pub open spec fn entry_replies(answer: Answer) -> Seq<WalkReply>
    decreases answer, 0int,
{
    match answer {
        Answer::Unlisted { error } => seq![WalkReply::Entry(Some(Err(error)))],
        Answer::Unseen { path, error } => seq![
            WalkReply::Entry(Some(Ok(path))),
            WalkReply::Metadata(Err(error)),
        ],
        Answer::Single { path, metadata, removal } => seq![
            WalkReply::Entry(Some(Ok(path))),
            WalkReply::Metadata(Ok(metadata)),
            WalkReply::Removed(removal),
        ],
        Answer::Directory { path, metadata, opening, entries, removal } => seq![
            WalkReply::Entry(Some(Ok(path))),
            WalkReply::Metadata(Ok(metadata)),
        ] + directory_replies(opening, entries, removal),
    }
}

/// What is asked for to delete the directory at `path` entry by entry: first
/// everything in it, then the directory itself.
pub open spec fn directory_requests(
    repair: bool,
    path: String,
    opening: Result<(), IoError>,
    entries: Seq<Answer>,
) -> Seq<WalkRequest>
    decreases entries, 1int,
{
    let opened = seq![WalkRequest::OpenDir { path, repair_permissions: repair }];
    match opening {
        Err(_) => opened,
        Ok(_) => opened + entries_requests(repair, entries) + seq![
            WalkRequest::NextEntry,
            WalkRequest::Remove { path, kind: RemovalKind::Node, repair_permissions: repair },
        ],
    }
}

pub open spec fn entries_requests(repair: bool, entries: Seq<Answer>) -> Seq<WalkRequest>
    decreases entries, 0int,
{
    if entries.len() == 0 {
        seq![]
    } else {
        entries_requests(repair, entries.drop_last()) + entry_requests(
            repair,
            entries[entries.len() - 1],
        )
    }
}

/// What is asked for to delete one entry.
pub open spec fn entry_requests(repair: bool, answer: Answer) -> Seq<WalkRequest>
    decreases answer, 0int,
{
    match answer {
        Answer::Unlisted { .. } => seq![WalkRequest::NextEntry],
        Answer::Unseen { path, .. } => seq![
            WalkRequest::NextEntry,
            WalkRequest::SymlinkMetadata { path },
        ],
        Answer::Single { path, metadata, .. } => seq![
            WalkRequest::NextEntry,
            WalkRequest::SymlinkMetadata { path },
            WalkRequest::Remove { path, kind: single_kind(metadata), repair_permissions: repair },
        ],
        Answer::Directory { path, opening, entries, .. } => seq![
            WalkRequest::NextEntry,
            WalkRequest::SymlinkMetadata { path },
        ] + directory_requests(repair, path, opening, entries),
    }
}

impl Walk {
    /// The deletion after all of `replies`.
    pub open spec fn run(self, replies: Seq<WalkReply>) -> Walk
        decreases replies.len(),
    {
        if replies.len() == 0 {
            self
        } else {
            self.after(replies[0]).run(replies.drop_first())
        }
    }

    /// Each of `replies` answers what is asked for when it comes.
    pub open spec fn accepts(self, replies: Seq<WalkReply>) -> bool
        decreases replies.len(),
    {
        replies.len() > 0 ==> self.awaits(replies[0]) && self.after(replies[0]).accepts(
            replies.drop_first(),
        )
    }

    /// What is asked for, one after the other, where `replies` come back.
    pub open spec fn requests(self, replies: Seq<WalkReply>) -> Seq<WalkRequest>
        decreases replies.len(),
    {
        if replies.len() == 0 {
            seq![]
        } else {
            seq![self.asks()->0] + self.after(replies[0]).requests(replies.drop_first())
        }
    }

    pub open spec fn with_issues(self, issues: Seq<PathDeleteError>) -> Walk {
        Walk { issues: self.issues + issues, ..self }
    }
}

proof fn lemma_run_in_parts(walk: Walk, first: Seq<WalkReply>, second: Seq<WalkReply>)
    ensures
        walk.run(first + second) == walk.run(first).run(second),
        walk.accepts(first) && walk.run(first).accepts(second) ==> walk.accepts(first + second),
        walk.requests(first + second) == walk.requests(first) + walk.run(first).requests(second),
    decreases first.len(),
{
    if first.len() == 0 {
        assert(first + second =~= second);
        assert(walk.requests(first) + walk.requests(second) =~= walk.requests(second));
    } else {
        assert((first + second).drop_first() =~= first.drop_first() + second);
        lemma_run_in_parts(walk.after(first[0]), first.drop_first(), second);
        assert(walk.requests(first + second) =~= walk.requests(first) + walk.run(first).requests(
            second,
        ));
    }
}

proof fn lemma_one_reply(walk: Walk, reply: WalkReply)
    ensures
        walk.run(seq![reply]) == walk.after(reply),
        walk.accepts(seq![reply]) == walk.awaits(reply),
        walk.requests(seq![reply]) == seq![walk.asks()->0],
{
    reveal_with_fuel(Walk::run, 2);
    reveal_with_fuel(Walk::accepts, 2);
    reveal_with_fuel(Walk::requests, 2);
    assert(seq![reply].drop_first() =~= seq![]);
    assert(walk.requests(seq![reply]) =~= seq![walk.asks()->0]);
}

proof fn lemma_directory(
    walk: Walk,
    path: String,
    opening: Result<(), IoError>,
    entries: Seq<Answer>,
    removal: Result<(), IoError>,
)
    requires
        walk.stage == (WalkStage::Opening { path }),
        all_consistent(walk.platform, entries),
    ensures
        walk.accepts(directory_replies(opening, entries, removal)),
        walk.run(directory_replies(opening, entries, removal)) == walk.with_issues(
            directory_issues(path, opening, entries, removal),
        ).up(),
        walk.requests(directory_replies(opening, entries, removal)) == directory_requests(
            walk.repair_permissions,
            path,
            opening,
            entries,
        ),
    decreases entries, 1int,
{
    let open = seq![WalkReply::Opened(opening)];
    lemma_one_reply(walk, WalkReply::Opened(opening));
    match opening {
        Err(err) => {
            assert(walk.issues.push(unremoved(path, RemovalKind::Node, err)) =~= walk.issues
                + seq![unremoved(path, RemovalKind::Node, err)]);
        },
        Ok(_) => {
            let opened = walk.after(WalkReply::Opened(opening));
            lemma_entries(opened, path, entries);
            let middle = entries_replies(entries);
            let inner = entries_issues(path, entries);
            let listed = opened.with_issues(inner);
            let none = seq![WalkReply::Entry(None)];
            let removed = seq![WalkReply::Removed(removal)];
            let closing = Walk { stage: WalkStage::Closing, ..listed };
            lemma_one_reply(listed, WalkReply::Entry(None));
            lemma_one_reply(closing, WalkReply::Removed(removal));
            lemma_run_in_parts(listed, none, removed);
            lemma_run_in_parts(walk, open, middle);
            lemma_run_in_parts(walk, open + middle, none + removed);
            assert(none + removed =~= seq![WalkReply::Entry(None), WalkReply::Removed(removal)]);
            assert(listed.levels.drop_last() =~= walk.levels);
            assert(listed.levels.last() == (Level { path, issues_before: walk.issues.len() }));
            let end = closing.after(WalkReply::Removed(removal));
            match removal {
                Ok(_) => {},
                Err(err) => {
                    let own = unremoved(path, RemovalKind::Node, err);
                    assert((walk.issues + inner).push(own) =~= walk.issues + inner.push(own));
                },
            }
            assert(end =~= walk.with_issues(own_issue(path, inner, removal)).up());
            let remove = WalkRequest::Remove {
                path,
                kind: RemovalKind::Node,
                repair_permissions: walk.repair_permissions,
            };
            assert(listed.requests(none + removed) =~= seq![WalkRequest::NextEntry, remove]);
        },
    }
}

proof fn lemma_entries(walk: Walk, dir: String, entries: Seq<Answer>)
    requires
        walk.stage is Listing,
        walk.levels.len() > 0,
        walk.levels.last().path == dir,
        all_consistent(walk.platform, entries),
    ensures
        walk.accepts(entries_replies(entries)),
        walk.run(entries_replies(entries)) == walk.with_issues(entries_issues(dir, entries)),
        walk.requests(entries_replies(entries)) == entries_requests(
            walk.repair_permissions,
            entries,
        ),
    decreases entries, 0int,
{
    if entries.len() == 0 {
        assert(walk.issues + seq![] =~= walk.issues);
    } else {
        let before = entries.drop_last();
        let last = entries[entries.len() - 1];
        lemma_entries(walk, dir, before);
        let middle = walk.with_issues(entries_issues(dir, before));
        lemma_entry(middle, dir, last);
        lemma_run_in_parts(walk, entries_replies(before), entry_replies(last));
        assert((walk.issues + entries_issues(dir, before)) + entry_issues(dir, last)
            =~= walk.issues + (entries_issues(dir, before) + entry_issues(dir, last)));
    }
}

/// A listed entry that is looked at.
proof fn lemma_look(walk: Walk, path: String, metadata: Result<FileMeta, IoError>)
    requires
        walk.stage is Listing,
        walk.levels.len() > 0,
    ensures
        ({
            let found = WalkReply::Entry(Some(Ok(path)));
            let looked = WalkReply::Metadata(metadata);
            &&& walk.accepts(seq![found, looked])
            &&& walk.run(seq![found, looked]) == walk.after(found).after(looked)
            &&& walk.requests(seq![found, looked]) == seq![
                WalkRequest::NextEntry,
                WalkRequest::SymlinkMetadata { path },
            ]
        }),
{
    let found = WalkReply::Entry(Some(Ok(path)));
    let looked = WalkReply::Metadata(metadata);
    lemma_one_reply(walk, found);
    lemma_one_reply(walk.after(found), looked);
    lemma_run_in_parts(walk, seq![found], seq![looked]);
    assert(seq![found] + seq![looked] =~= seq![found, looked]);
    assert(walk.requests(seq![found, looked]) =~= seq![
        WalkRequest::NextEntry,
        WalkRequest::SymlinkMetadata { path },
    ]);
}

proof fn lemma_single(
    walk: Walk,
    dir: String,
    path: String,
    metadata: FileMeta,
    removal: Result<(), IoError>,
)
    requires
        walk.stage is Listing,
        walk.levels.len() > 0,
        !is_entered(walk.platform, metadata),
    ensures
        ({
            let answer = Answer::Single { path, metadata, removal };
            &&& walk.accepts(entry_replies(answer))
            &&& walk.run(entry_replies(answer)) == walk.with_issues(entry_issues(dir, answer))
            &&& walk.requests(entry_replies(answer)) == entry_requests(
                walk.repair_permissions,
                answer,
            )
        }),
{
    let answer = Answer::Single { path, metadata, removal };
    let found = WalkReply::Entry(Some(Ok(path)));
    let seen = WalkReply::Metadata(Ok(metadata));
    let removed = WalkReply::Removed(removal);
    lemma_look(walk, path, Ok(metadata));
    lemma_one_reply(walk.after(found).after(seen), removed);
    lemma_run_in_parts(walk, seq![found, seen], seq![removed]);
    assert(seq![found, seen] + seq![removed] =~= entry_replies(answer));
    assert(walk.requests(entry_replies(answer)) =~= entry_requests(
        walk.repair_permissions,
        answer,
    ));
    match removal {
        Ok(_) => {
            assert(walk.issues + seq![] =~= walk.issues);
        },
        Err(err) => {
            let issue = unremoved(path, single_kind(metadata), err);
            assert(walk.issues.push(issue) =~= walk.issues + seq![issue]);
        },
    }
}

proof fn lemma_entry(walk: Walk, dir: String, answer: Answer)
    requires
        walk.stage is Listing,
        walk.levels.len() > 0,
        walk.levels.last().path == dir,
        consistent(walk.platform, answer),
    ensures
        walk.accepts(entry_replies(answer)),
        walk.run(entry_replies(answer)) == walk.with_issues(entry_issues(dir, answer)),
        walk.requests(entry_replies(answer)) == entry_requests(walk.repair_permissions, answer),
    decreases answer, 0int,
{
    match answer {
        Answer::Unlisted { error } => {
            lemma_one_reply(walk, WalkReply::Entry(Some(Err(error))));
            let issue = unremoved(dir, RemovalKind::Node, error);
            assert(walk.issues.push(issue) =~= walk.issues + seq![issue]);
        },
        Answer::Unseen { path, error } => {
            lemma_look(walk, path, Err(error));
            assert(walk.issues.push(unseen(path, error)) =~= walk.issues + seq![
                unseen(path, error),
            ]);
        },
        Answer::Single { path, metadata, removal } => {
            lemma_single(walk, dir, path, metadata, removal);
        },
        Answer::Directory { path, metadata, opening, entries, removal } => {
            let found = WalkReply::Entry(Some(Ok(path)));
            let seen = WalkReply::Metadata(Ok(metadata));
            lemma_look(walk, path, Ok(metadata));
            let opening_walk = walk.after(found).after(seen);
            lemma_directory(opening_walk, path, opening, entries, removal);
            lemma_run_in_parts(
                walk,
                seq![found, seen],
                directory_replies(opening, entries, removal),
            );
        },
    }
}

/// Deleting a directory entry by entry asks for the removal of every entry below
/// it, the content of a directory before the directory, whatever fails on the
/// way. It reports exactly the entries that stay, in that order, and a directory
/// that stays only because of its entries not at all.
pub proof fn law_recursive_deletion_reports_each_entry_that_stays(
    walk: Walk,
    metadata: FileMeta,
    opening: Result<(), IoError>,
    entries: Seq<Answer>,
    removal: Result<(), IoError>,
)
    requires
        walk == Walk::fresh(
            walk.platform,
            walk.path,
            false,
            walk.repair_permissions,
            DeleteStrategy::Recursive,
        ),
        is_entered(walk.platform, metadata),
        all_consistent(walk.platform, entries),
    ensures
        ({
            let replies = seq![WalkReply::Metadata(Ok(metadata))] + directory_replies(
                opening,
                entries,
                removal,
            );
            &&& walk.accepts(replies)
            &&& walk.requests(replies) == seq![WalkRequest::SymlinkMetadata { path: walk.path }]
                + directory_requests(walk.repair_permissions, walk.path, opening, entries)
            &&& walk.run(replies).stage is Finished
            &&& walk.run(replies).issues == directory_issues(walk.path, opening, entries, removal)
        }),
{
    let seen = WalkReply::Metadata(Ok(metadata));
    lemma_one_reply(walk, seen);
    lemma_directory(walk.after(seen), walk.path, opening, entries, removal);
    lemma_run_in_parts(walk, seq![seen], directory_replies(opening, entries, removal));
    let issues = directory_issues(walk.path, opening, entries, removal);
    assert(seq![] + issues =~= issues);
}

/// What a path is removed as where it is not gone through entry by entry.
pub open spec fn whole_kind(platform: Platform, metadata: FileMeta) -> RemovalKind {
    if is_entered(platform, metadata) {
        RemovalKind::Tree
    } else {
        single_kind(metadata)
    }
}

/// A file, a link, and a directory that is removed whole, take one removal: the
/// deletion reports the path if that fails, and nothing otherwise.
pub proof fn law_single_deletion_reports_its_failure(
    walk: Walk,
    metadata: FileMeta,
    removal: Result<(), IoError>,
)
    requires
        walk == Walk::fresh(
            walk.platform,
            walk.path,
            false,
            walk.repair_permissions,
            walk.strategy,
        ),
        is_entered(walk.platform, metadata) ==> walk.strategy == DeleteStrategy::Native,
    ensures
        ({
            let replies = seq![WalkReply::Metadata(Ok(metadata)), WalkReply::Removed(removal)];
            let kind = whole_kind(walk.platform, metadata);
            &&& walk.accepts(replies)
            &&& walk.requests(replies) == seq![
                WalkRequest::SymlinkMetadata { path: walk.path },
                WalkRequest::Remove {
                    path: walk.path,
                    kind,
                    repair_permissions: walk.repair_permissions,
                },
            ]
            &&& walk.run(replies).stage is Finished
            &&& walk.run(replies).issues == (match removal {
                Ok(_) => seq![],
                Err(err) => seq![unremoved(walk.path, kind, err)],
            })
        }),
{
    let seen = WalkReply::Metadata(Ok(metadata));
    let removed = WalkReply::Removed(removal);
    lemma_one_reply(walk, seen);
    lemma_one_reply(walk.after(seen), removed);
    lemma_run_in_parts(walk, seq![seen], seq![removed]);
    assert(seq![seen] + seq![removed] =~= seq![seen, removed]);
    assert(walk.requests(seq![seen] + seq![removed]) =~= seq![
        WalkRequest::SymlinkMetadata { path: walk.path },
        WalkRequest::Remove {
            path: walk.path,
            kind: whole_kind(walk.platform, metadata),
            repair_permissions: walk.repair_permissions,
        },
    ]);
}

/// A path that cannot be looked at is the one thing that is reported, as missing
/// where it is not there.
pub proof fn law_unseen_path_is_reported(walk: Walk, err: IoError)
    requires
        walk == Walk::fresh(
            walk.platform,
            walk.path,
            walk.dry_run,
            walk.repair_permissions,
            walk.strategy,
        ),
    ensures
        ({
            let end = walk.after(WalkReply::Metadata(Err(err)));
            &&& end.stage is Finished
            &&& end.issues == seq![unseen(walk.path, err)]
            &&& end.issues[0].failed_path == walk.path
            &&& err.kind is NotFound ==> end.issues[0].error is Missing
            &&& !(err.kind is NotFound) ==> end.issues[0].error == DeleteError::Metadata(err)
        }),
{
    assert(Seq::<PathDeleteError>::empty().push(unseen(walk.path, err)) =~= seq![
        unseen(walk.path, err),
    ]);
}

/// A dry run only looks at the path: it asks for nothing else, and reports
/// nothing unless the path cannot be looked at.
pub proof fn law_dry_run_only_looks(walk: Walk, metadata: Result<FileMeta, IoError>)
    requires
        walk == Walk::fresh(
            walk.platform,
            walk.path,
            true,
            walk.repair_permissions,
            walk.strategy,
        ),
    ensures
        walk.asks() == Some(WalkRequest::SymlinkMetadata { path: walk.path }),
        walk.after(WalkReply::Metadata(metadata)).asks() is None,
        walk.after(WalkReply::Metadata(metadata)).issues == (match metadata {
            Ok(_) => seq![],
            Err(err) => seq![unseen(walk.path, err)],
        }),
{
    if metadata is Err {
        assert(Seq::<PathDeleteError>::empty().push(unseen(walk.path, metadata->Err_0)) =~= seq![
            unseen(walk.path, metadata->Err_0),
        ]);
    }
}

/// A directory that leads elsewhere is never opened: it is removed as a link.
pub proof fn law_links_are_not_entered(walk: Walk, metadata: FileMeta)
    requires
        walk.stage is Inspecting || (walk.stage is Starting && !walk.dry_run),
        leads_elsewhere(walk.platform, metadata),
    ensures
        walk.after(WalkReply::Metadata(Ok(metadata))).stage matches WalkStage::Removing {
            kind,
            ..
        } && kind == RemovalKind::Link,
{
}

// ---------------------------------------------------------------------------
// Single steps

/// A deletion begins with a look at its path, with nothing open and nothing to
/// report.
pub proof fn law_deletion_begins_with_a_look(
    platform: Platform,
    path: String,
    dry_run: bool,
    repair: bool,
    strategy: DeleteStrategy,
)
    ensures
        ({
            let walk = Walk::fresh(platform, path, dry_run, repair, strategy);
            &&& walk.asks() == Some(WalkRequest::SymlinkMetadata { path })
            &&& walk.platform == platform
            &&& walk.path == path
            &&& walk.dry_run == dry_run
            &&& walk.repair_permissions == repair
            &&& walk.strategy == strategy
            &&& walk.stage is Starting
            &&& walk.levels.len() == 0
            &&& walk.issues.len() == 0
        }),
{
}

/// An entry of a directory is entered if it is a directory that leads nowhere
/// else: no link, and on Windows without the bit for reparse points, whatever its
/// other bits are. A directory that leads elsewhere is removed as a link, and
/// anything else as a file.
pub proof fn law_entries_are_entered_or_removed(walk: Walk, path: String, metadata: FileMeta)
    requires
        walk.stage == (WalkStage::Inspecting { path }),
    ensures
        ({
            let seen = walk.after(WalkReply::Metadata(Ok(metadata)));
            let elsewhere = metadata.is_symlink || (walk.platform is Windows && metadata.attributes
                & 0x0400u32 != 0);
            &&& seen == (Walk { stage: seen.stage, ..walk })
            &&& seen.asks() == Some(
                if !metadata.is_dir {
                    WalkRequest::Remove {
                        path,
                        kind: RemovalKind::File { was_readonly: metadata.readonly },
                        repair_permissions: walk.repair_permissions,
                    }
                } else if elsewhere {
                    WalkRequest::Remove {
                        path,
                        kind: RemovalKind::Link,
                        repair_permissions: walk.repair_permissions,
                    }
                } else {
                    WalkRequest::OpenDir { path, repair_permissions: walk.repair_permissions }
                },
            )
        }),
{
}

/// The path itself is treated like an entry, but for a dry run, which ends with
/// the look at it, and for the native strategy, by which a directory that leads
/// nowhere else is removed whole.
pub proof fn law_path_is_entered_or_removed(walk: Walk, metadata: FileMeta)
    requires
        walk.stage is Starting,
        walk.levels.len() == 0,
    ensures
        ({
            let seen = walk.after(WalkReply::Metadata(Ok(metadata)));
            let elsewhere = metadata.is_symlink || (walk.platform is Windows && metadata.attributes
                & 0x0400u32 != 0);
            let repair_permissions = walk.repair_permissions;
            &&& seen == (Walk { stage: seen.stage, ..walk })
            &&& if walk.dry_run {
                seen.stage is Finished
            } else {
                seen.asks() == Some(
                    if !metadata.is_dir {
                        WalkRequest::Remove {
                            path: walk.path,
                            kind: RemovalKind::File { was_readonly: metadata.readonly },
                            repair_permissions,
                        }
                    } else if elsewhere {
                        WalkRequest::Remove {
                            path: walk.path,
                            kind: RemovalKind::Link,
                            repair_permissions,
                        }
                    } else if walk.strategy is Native {
                        WalkRequest::Remove {
                            path: walk.path,
                            kind: RemovalKind::Tree,
                            repair_permissions,
                        }
                    } else {
                        WalkRequest::OpenDir { path: walk.path, repair_permissions }
                    },
                )
            }
        }),
{
}

/// An entry that cannot be looked at is reported by its own path, as missing
/// exactly if it is not there, and the deletion goes on with the directory that is
/// open.
pub proof fn law_unseen_entry_is_reported(walk: Walk, path: String, err: IoError)
    requires
        walk.stage == (WalkStage::Inspecting { path }),
        walk.levels.len() > 0,
    ensures
        ({
            let next = walk.after(WalkReply::Metadata(Err(err)));
            let issue = PathDeleteError {
                failed_path: path,
                error: if err.kind is NotFound {
                    DeleteError::Missing
                } else {
                    DeleteError::Metadata(err)
                },
            };
            next == (Walk { issues: walk.issues.push(issue), stage: WalkStage::Listing, ..walk })
        }),
{
}

/// An entry that was removed leaves nothing to report; one that was not is
/// reported by its own path, as a file exactly if it was removed as one. Either
/// way the deletion goes on with the directory that is open, or ends where none is.
pub proof fn law_unremoved_entry_is_reported(
    walk: Walk,
    path: String,
    kind: RemovalKind,
    err: IoError,
)
    requires
        walk.stage == (WalkStage::Removing { path, kind }),
    ensures
        ({
            let stage = if walk.levels.len() > 0 {
                WalkStage::Listing
            } else {
                WalkStage::Finished
            };
            let issue = PathDeleteError {
                failed_path: path,
                error: if kind is File {
                    DeleteError::RemoveFile(err)
                } else {
                    DeleteError::RemoveDir(err)
                },
            };
            &&& walk.after(WalkReply::Removed(Ok(()))) == (Walk { stage, ..walk })
            &&& walk.after(WalkReply::Removed(Err(err))) == (Walk {
                issues: walk.issues.push(issue),
                stage,
                ..walk
            })
        }),
{
}

/// A directory that cannot be opened is reported, and nothing in it is touched;
/// one that is open is gone through to its last entry, and an entry that cannot be
/// read from it is reported by the path of the directory.
pub proof fn law_directories_are_gone_through(
    walk: Walk,
    path: String,
    err: IoError,
    entry: String,
)
    ensures
        walk.stage == (WalkStage::Opening { path }) ==> {
            let issue = PathDeleteError { failed_path: path, error: DeleteError::RemoveDir(err) };
            &&& walk.after(WalkReply::Opened(Ok(()))) == (Walk {
                levels: walk.levels.push(Level { path, issues_before: walk.issues.len() }),
                stage: WalkStage::Listing,
                ..walk
            })
            &&& walk.after(WalkReply::Opened(Err(err))) == (Walk {
                issues: walk.issues.push(issue),
                stage: if walk.levels.len() > 0 {
                    WalkStage::Listing
                } else {
                    WalkStage::Finished
                },
                ..walk
            })
        },
        walk.stage is Listing && walk.levels.len() > 0 ==> {
            let dir = walk.levels.last().path;
            let issue = PathDeleteError { failed_path: dir, error: DeleteError::RemoveDir(err) };
            let closing = walk.after(WalkReply::Entry(None));
            let next = walk.after(WalkReply::Entry(Some(Ok(entry))));
            &&& walk.asks() == Some(WalkRequest::NextEntry)
            &&& next == (Walk { stage: next.stage, ..walk })
            &&& next.asks() == Some(WalkRequest::SymlinkMetadata { path: entry })
            &&& walk.after(WalkReply::Entry(Some(Err(err)))) == (Walk {
                issues: walk.issues.push(issue),
                ..walk
            })
            &&& closing == (Walk { stage: closing.stage, ..walk })
            &&& closing.asks() == Some(
                WalkRequest::Remove {
                    path: dir,
                    kind: RemovalKind::Node,
                    repair_permissions: walk.repair_permissions,
                },
            )
        },
{
}

/// A directory whose entries were dealt with is reported if it stays, unless it
/// stays because it is not empty (145) and something in it was reported.
pub proof fn law_directory_is_reported_for_its_own_sake(walk: Walk, err: IoError)
    requires
        walk.stage is Closing,
        walk.levels.len() > 0,
    ensures
        ({
            let level = walk.levels.last();
            let issue = PathDeleteError {
                failed_path: level.path,
                error: DeleteError::RemoveDir(err),
            };
            let stage = if walk.levels.len() > 1 {
                WalkStage::Listing
            } else {
                WalkStage::Finished
            };
            let closed = Walk { levels: walk.levels.drop_last(), stage, ..walk };
            let for_its_entries = walk.issues.len() > level.issues_before && (err.os_code matches Some(
                code,
            ) && code == 145);
            &&& walk.after(WalkReply::Removed(Ok(()))) == closed
            &&& walk.after(WalkReply::Removed(Err(err))) == if for_its_entries {
                closed
            } else {
                Walk { issues: walk.issues.push(issue), ..closed }
            }
        }),
{
}

} // verus!
