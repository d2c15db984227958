//! Moving entries elsewhere and leaving links in their place.
use crate::batch::{
    failed_in, goes_through, law_batch_tries_every_source,
    law_failures_are_those_of_the_failed_moves, move_summary, move_summary_text, Batch, BatchStage,
    MoveOutcome, MoveRun,
};
use crate::cli::Cli;
use crate::fault::{ErrorReport, FileMeta, IoError};
use crate::path::{
    file_name, file_name_of, is_name, join, joined_path, law_joined_path_keeps_the_name, parent,
    parent_of, prefix_kind, prefix_len, same_parts, same_path,
};
use crate::platform::Platform;
use crate::symlink::{create_symlink_for_kind, symlink_call, Symlink, SymlinkCall};
use crate::text::texts;
use crate::transfer::{kind_label, kind_name, SourceKind};
use vstd::prelude::*;

verus! {

/// An entry that could not be moved.
#[derive(Debug)]
pub struct MoveFailureEntry {
    pub source: String,
    pub destination: Option<String>,
    pub error: String,
}

/// Whether `built` is where `source` goes in `target_dir`: to its own name.
pub open spec fn is_destination(
    platform: Platform,
    source: Seq<char>,
    target_dir: Seq<char>,
    built: Result<String, ErrorReport>,
) -> bool {
    match file_name_of(platform, source) {
        Some(name) => built matches Ok(path) && path@ == joined_path(platform, target_dir, name),
        None => built matches Err(report) && report.cause is None && report.message@
            == "source path has no file name: "@ + source,
    }
}

/// Where `source` goes in `target_dir`.
pub fn build_destination_path(platform: Platform, source: &str, target_dir: &str) -> (built: Result<
    String,
    ErrorReport,
>)
    ensures
        is_destination(platform, source@, target_dir@, built),
{
    match file_name(platform, source) {
        Some(name) => Ok(join(platform, target_dir, name.as_str())),
        None => Err(
            ErrorReport::plain("source path has no file name: ".to_owned().concat(source)),
        ),
    }
}

/// An entry keeps its name, unless the name and the target directory together
/// read as something else.
pub proof fn law_destination_keeps_the_name(
    platform: Platform,
    source: Seq<char>,
    target_dir: Seq<char>,
    name: Seq<char>,
    destination: String,
)
    requires
        file_name_of(platform, source) == Some(name),
        is_destination(platform, source, target_dir, Ok(destination)),
        is_name(platform, name),
        prefix_kind(platform, destination@) == prefix_kind(platform, target_dir),
        prefix_len(platform, destination@) == prefix_len(platform, target_dir),
    ensures
        file_name_of(platform, destination@) == Some(name),
{
    law_joined_path_keeps_the_name(platform, target_dir, name);
}

/// Why an entry was not moved and linked.
#[derive(Debug)]
pub enum LinkFault {
    /// The source cannot be looked at.
    Metadata(IoError),
    NoFileName,
    SamePath,
    DestinationExists,
    /// The directory around the destination cannot be created.
    CreateParent(IoError),
    Move { kind: SourceKind, error: IoError },
    /// The link to `target` was not made, and moving the entry back ended with
    /// `rollback`. Without a refusal, there are no links on the platform.
    Link { target: String, refusal: Option<IoError>, rollback: Result<(), IoError> },
}

/// Where the moving and linking of an entry stands.
#[derive(Debug)]
pub enum LinkStage {
    /// The source is being looked at.
    Inspecting,
    /// Whether the destination is taken is being found out.
    Checking { kind: SourceKind },
    /// The directory around the destination is being created.
    CreatingParent { kind: SourceKind },
    /// The source is being moved.
    Moving { kind: SourceKind },
    /// The full path of the destination is being found out.
    Locating { kind: SourceKind },
    /// The link is being made.
    Linking { kind: SourceKind, symlink: Symlink<String> },
    /// The link was not made: the entry is being moved back.
    RollingBack { kind: SourceKind, target: String, refusal: Option<IoError> },
    Finished(Result<(), LinkFault>),
}

/// The moving of an entry, with a link left in its place.
#[derive(Debug)]
pub struct LinkMove {
    pub platform: Platform,
    pub source: String,
    /// Where the entry goes, if it has a name.
    pub destination: Option<String>,
    /// The directory around the destination, if there is one.
    pub parent: Option<String>,
    /// Whether source and destination are the same path.
    pub same: bool,
    pub dry_run: bool,
    pub stage: LinkStage,
}

/// What a move with a link asks for.
#[derive(Debug)]
pub enum LinkRequest {
    /// What the path leads to.
    Metadata { path: String },
    /// Whether the path leads to something.
    Exists { path: String },
    CreateDirAll { path: String },
    MovePath { from: String, to: String, kind: SourceKind },
    /// The full path, with no links in it.
    Canonicalize { path: String },
    Symlink(Symlink<String>),
}

/// The answer to a request of a move with a link.
#[derive(Debug)]
pub enum LinkReply {
    Metadata(Result<FileMeta, IoError>),
    Exists(bool),
    Done(Result<(), IoError>),
    Canonical(Result<String, IoError>),
}

/// What kind of entry is moved.
pub open spec fn moved_kind(metadata: FileMeta) -> SourceKind {
    if metadata.is_dir {
        SourceKind::Directory
    } else {
        SourceKind::File
    }
}

impl LinkFault {
    /// The error that a failure came from.
    pub open spec fn cause(self) -> Option<String> {
        match self {
            LinkFault::Metadata(err) => Some(err.text),
            LinkFault::CreateParent(err) => Some(err.text),
            LinkFault::Move { error, .. } => Some(error.text),
            _ => None,
        }
    }
}

impl LinkMove {
    /// Whether the entry is on its way into `target_dir`.
    pub open spec fn heads_for(self, target_dir: Seq<char>) -> bool {
        match file_name_of(self.platform, self.source@) {
            Some(name) => {
                &&& self.destination matches Some(path)
                &&& path@ == joined_path(self.platform, target_dir, name)
                &&& self.same == same_parts(self.platform, self.source@, path@)
                &&& match parent_of(self.platform, path@) {
                    Some(dir) => self.parent matches Some(outer) && outer@ == dir,
                    None => self.parent is None,
                }
            },
            None => self.destination is None && self.parent is None && !self.same,
        }
    }

    /// Nothing is moved without a destination, or onto itself.
    pub open spec fn valid(self) -> bool {
        &&& match self.stage {
            LinkStage::Inspecting => true,
            LinkStage::Finished(end) => end matches Err(fault) ==> (match fault {
                LinkFault::Metadata(_) | LinkFault::NoFileName => true,
                LinkFault::CreateParent(_) => self.destination is Some && self.parent is Some,
                _ => self.destination is Some,
            }),
            _ => self.destination is Some,
        }
        &&& self.stage matches LinkStage::Finished(Ok(_)) ==> self.destination is Some && !self.same
        &&& self.stage is Inspecting || self.stage is Finished || !self.same
        &&& self.stage is CreatingParent ==> self.parent is Some
    }

    /// What is asked for next.
    pub open spec fn asks(self) -> Option<LinkRequest> {
        match self.stage {
            LinkStage::Inspecting => Some(LinkRequest::Metadata { path: self.source }),
            LinkStage::Checking { .. } => Some(LinkRequest::Exists { path: self.destination->0 }),
            LinkStage::CreatingParent { .. } => Some(
                LinkRequest::CreateDirAll { path: self.parent->0 },
            ),
            LinkStage::Moving { kind } => Some(
                LinkRequest::MovePath { from: self.source, to: self.destination->0, kind },
            ),
            LinkStage::Locating { .. } => Some(
                LinkRequest::Canonicalize { path: self.destination->0 },
            ),
            LinkStage::Linking { symlink, .. } => Some(LinkRequest::Symlink(symlink)),
            LinkStage::RollingBack { kind, .. } => Some(
                LinkRequest::MovePath { from: self.destination->0, to: self.source, kind },
            ),
            LinkStage::Finished(_) => None,
        }
    }

    /// Whether `reply` answers what is asked for.
    pub open spec fn awaits(self, reply: LinkReply) -> bool {
        match self.stage {
            LinkStage::Inspecting => reply is Metadata,
            LinkStage::Checking { .. } => reply is Exists,
            LinkStage::CreatingParent { .. } => reply is Done,
            LinkStage::Moving { .. } => reply is Done,
            LinkStage::Locating { .. } => reply is Canonical,
            LinkStage::Linking { .. } => reply is Done,
            LinkStage::RollingBack { .. } => reply is Done,
            LinkStage::Finished(_) => false,
        }
    }

    pub open spec fn at(self, stage: LinkStage) -> LinkMove {
        LinkMove { stage, ..self }
    }

    pub open spec fn failed(self, fault: LinkFault) -> LinkMove {
        self.at(LinkStage::Finished(Err(fault)))
    }

    /// The destination is free.
    pub open spec fn cleared(self, kind: SourceKind) -> LinkMove {
        if self.dry_run {
            self.at(LinkStage::Finished(Ok(())))
        } else if self.parent is Some {
            self.at(LinkStage::CreatingParent { kind })
        } else {
            self.at(LinkStage::Moving { kind })
        }
    }

    /// The entry is moved: a link to `target` takes its place.
    pub open spec fn linked(self, kind: SourceKind, target: String) -> LinkMove {
        match symlink_call(self.platform, kind) {
            Some(call) => self.at(
                LinkStage::Linking { kind, symlink: Symlink { call, target, link: self.source } },
            ),
            None => self.at(LinkStage::RollingBack { kind, target, refusal: None }),
        }
    }

    /// The move once `reply` has come in.
    pub open spec fn after(self, reply: LinkReply) -> LinkMove {
        match (self.stage, reply) {
            (LinkStage::Inspecting, LinkReply::Metadata(Err(err))) => self.failed(
                LinkFault::Metadata(err),
            ),
            (LinkStage::Inspecting, LinkReply::Metadata(Ok(metadata))) => {
                if self.destination is None {
                    self.failed(LinkFault::NoFileName)
                } else if self.same {
                    self.failed(LinkFault::SamePath)
                } else {
                    self.at(LinkStage::Checking { kind: moved_kind(metadata) })
                }
            },
            (LinkStage::Checking { .. }, LinkReply::Exists(true)) => self.failed(
                LinkFault::DestinationExists,
            ),
            (LinkStage::Checking { kind }, LinkReply::Exists(false)) => self.cleared(kind),
            (LinkStage::CreatingParent { kind }, LinkReply::Done(Ok(_))) => self.at(
                LinkStage::Moving { kind },
            ),
            (LinkStage::CreatingParent { .. }, LinkReply::Done(Err(err))) => self.failed(
                LinkFault::CreateParent(err),
            ),
            (LinkStage::Moving { kind }, LinkReply::Done(Ok(_))) => self.at(
                LinkStage::Locating { kind },
            ),
            (LinkStage::Moving { kind }, LinkReply::Done(Err(error))) => self.failed(
                LinkFault::Move { kind, error },
            ),
            (LinkStage::Locating { kind }, LinkReply::Canonical(Ok(target))) => self.linked(
                kind,
                target,
            ),
            (LinkStage::Locating { kind }, LinkReply::Canonical(Err(_))) => self.linked(
                kind,
                self.destination->0,
            ),
            (LinkStage::Linking { .. }, LinkReply::Done(Ok(_))) => self.at(
                LinkStage::Finished(Ok(())),
            ),
            (LinkStage::Linking { kind, symlink }, LinkReply::Done(Err(err))) => self.at(
                LinkStage::RollingBack { kind, target: symlink.target, refusal: Some(err) },
            ),
            (
                LinkStage::RollingBack { target, refusal, .. },
                LinkReply::Done(rollback),
            ) => self.failed(LinkFault::Link { target, refusal, rollback }),
            _ => self,
        }
    }

    /// What is said of a failure.
    pub open spec fn message(self, fault: LinkFault) -> Seq<char> {
        match fault {
            LinkFault::Metadata(_) => "failed to read source metadata: "@ + self.source@,
            LinkFault::NoFileName => "source path has no file name: "@ + self.source@,
            LinkFault::SamePath => "source and destination are the same path: "@ + self.source@,
            LinkFault::DestinationExists => "destination already exists, refusing to overwrite: "@
                + self.destination->0@,
            LinkFault::CreateParent(_) => "failed to create destination parent directory "@
                + self.parent->0@,
            LinkFault::Move { kind, .. } => "failed to move "@ + kind_name(kind) + " from "@
                + self.source@ + " to "@ + self.destination->0@,
            LinkFault::Link { target, refusal, rollback } => {
                let why = match refusal {
                    Some(err) => err.text@,
                    None => "symbolic links are not supported on this platform"@,
                };
                let failed = "failed to create symlink at "@ + self.source@ + " -> "@ + target@
                    + ": "@ + why;
                match rollback {
                    Ok(_) => failed,
                    Err(err) => failed + "; rollback failed: "@ + err.text@,
                }
            },
        }
    }

    /// What is to be done next; nothing once the move is finished.
    pub fn request(&self) -> (request: Option<LinkRequest>)
        requires
            self.valid(),
        ensures
            request == self.asks(),
    {
        let destination = match &self.destination {
            Some(path) => path.clone(),
            None => String::new(),
        };
        match &self.stage {
            LinkStage::Inspecting => Some(LinkRequest::Metadata { path: self.source.clone() }),
            LinkStage::Checking { .. } => Some(LinkRequest::Exists { path: destination }),
            LinkStage::CreatingParent { .. } => match &self.parent {
                Some(path) => Some(LinkRequest::CreateDirAll { path: path.clone() }),
                None => None,
            },
            LinkStage::Moving { kind } => Some(
                LinkRequest::MovePath { from: self.source.clone(), to: destination, kind: *kind },
            ),
            LinkStage::Locating { .. } => Some(LinkRequest::Canonicalize { path: destination }),
            LinkStage::Linking { symlink, .. } => Some(
                LinkRequest::Symlink(
                    Symlink {
                        call: symlink.call,
                        target: symlink.target.clone(),
                        link: symlink.link.clone(),
                    },
                ),
            ),
            LinkStage::RollingBack { kind, .. } => Some(
                LinkRequest::MovePath { from: destination, to: self.source.clone(), kind: *kind },
            ),
            LinkStage::Finished(_) => None,
        }
    }

    fn make_link(&self, kind: SourceKind, target: String) -> (stage: LinkStage)
        ensures
            stage == self.linked(kind, target).stage,
    {
        let copy = target.clone();
        match create_symlink_for_kind(self.platform, kind, target, self.source.clone()) {
            Ok(symlink) => LinkStage::Linking { kind, symlink },
            Err(_) => LinkStage::RollingBack { kind, target: copy, refusal: None },
        }
    }

    /// Goes on with the answer to the last request.
    pub fn resume(&mut self, reply: LinkReply)
        requires
            old(self).valid(),
            old(self).awaits(reply),
        ensures
            *final(self) == old(self).after(reply),
            final(self).valid(),
    {
        let mut stage = LinkStage::Inspecting;
        std::mem::swap(&mut stage, &mut self.stage);
        self.stage = match (stage, reply) {
            (LinkStage::Inspecting, LinkReply::Metadata(Err(err))) => LinkStage::Finished(
                Err(LinkFault::Metadata(err)),
            ),
            (LinkStage::Inspecting, LinkReply::Metadata(Ok(metadata))) => {
                let kind = if metadata.is_dir {
                    SourceKind::Directory
                } else {
                    SourceKind::File
                };
                if self.destination.is_none() {
                    LinkStage::Finished(Err(LinkFault::NoFileName))
                } else if self.same {
                    LinkStage::Finished(Err(LinkFault::SamePath))
                } else {
                    LinkStage::Checking { kind }
                }
            },
            (LinkStage::Checking { kind }, LinkReply::Exists(taken)) => {
                if taken {
                    LinkStage::Finished(Err(LinkFault::DestinationExists))
                } else if self.dry_run {
                    LinkStage::Finished(Ok(()))
                } else if self.parent.is_some() {
                    LinkStage::CreatingParent { kind }
                } else {
                    LinkStage::Moving { kind }
                }
            },
            (LinkStage::CreatingParent { kind }, LinkReply::Done(Ok(_))) => LinkStage::Moving {
                kind,
            },
            (LinkStage::CreatingParent { .. }, LinkReply::Done(Err(err))) => LinkStage::Finished(
                Err(LinkFault::CreateParent(err)),
            ),
            (LinkStage::Moving { kind }, LinkReply::Done(Ok(_))) => LinkStage::Locating { kind },
            (LinkStage::Moving { kind }, LinkReply::Done(Err(error))) => LinkStage::Finished(
                Err(LinkFault::Move { kind, error }),
            ),
            (LinkStage::Locating { kind }, LinkReply::Canonical(located)) => {
                let target = match located {
                    Ok(target) => target,
                    Err(_) => match &self.destination {
                        Some(path) => path.clone(),
                        None => String::new(),
                    },
                };
                self.make_link(kind, target)
            },
            (LinkStage::Linking { .. }, LinkReply::Done(Ok(_))) => LinkStage::Finished(Ok(())),
            (
                LinkStage::Linking { kind, symlink },
                LinkReply::Done(Err(err)),
            ) => LinkStage::RollingBack { kind, target: symlink.target, refusal: Some(err) },
            (
                LinkStage::RollingBack { target, refusal, .. },
                LinkReply::Done(rollback),
            ) => LinkStage::Finished(Err(LinkFault::Link { target, refusal, rollback })),
            (stage, _) => stage,
        };
    }

    fn report(&self, fault: &LinkFault) -> (report: ErrorReport)
        requires
            self.stage is Finished,
            self.stage->Finished_0 == Err::<(), LinkFault>(*fault),
            self.valid(),
        ensures
            report.message@ == self.message(*fault),
            report.cause == fault.cause(),
    {
        let source = self.source.as_str();
        let destination = match &self.destination {
            Some(path) => path.as_str(),
            None => "",
        };
        match fault {
            LinkFault::Metadata(err) => ErrorReport::because(
                "failed to read source metadata: ".to_owned().concat(source),
                err.text.clone(),
            ),
            LinkFault::NoFileName => ErrorReport::plain(
                "source path has no file name: ".to_owned().concat(source),
            ),
            LinkFault::SamePath => ErrorReport::plain(
                "source and destination are the same path: ".to_owned().concat(source),
            ),
            LinkFault::DestinationExists => ErrorReport::plain(
                "destination already exists, refusing to overwrite: ".to_owned().concat(destination),
            ),
            LinkFault::CreateParent(err) => {
                let dir = match &self.parent {
                    Some(path) => path.as_str(),
                    None => "",
                };
                ErrorReport::because(
                    "failed to create destination parent directory ".to_owned().concat(dir),
                    err.text.clone(),
                )
            },
            LinkFault::Move { kind, error } => ErrorReport::because(
                "failed to move ".to_owned().concat(kind_label(*kind)).concat(" from ").concat(
                    source,
                ).concat(" to ").concat(destination),
                error.text.clone(),
            ),
            LinkFault::Link { target, refusal, rollback } => {
                let why = match refusal {
                    Some(err) => err.text.as_str(),
                    None => "symbolic links are not supported on this platform",
                };
                let failed = "failed to create symlink at ".to_owned().concat(source).concat(
                    " -> ",
                ).concat(target.as_str()).concat(": ").concat(why);
                let message = match rollback {
                    Ok(_) => failed,
                    Err(err) => failed.concat("; rollback failed: ").concat(err.text.as_str()),
                };
                ErrorReport::plain(message)
            },
        }
    }

    /// Where the entry is now, or why it was not moved.
    pub fn result(&self) -> (result: Option<Result<String, ErrorReport>>)
        requires
            self.valid(),
        ensures
            match self.stage {
                LinkStage::Finished(Ok(_)) => result == Some(
                    Ok::<String, ErrorReport>(self.destination->0),
                ),
                LinkStage::Finished(Err(fault)) => result matches Some(Err(report))
                    && report.message@ == self.message(fault) && report.cause == fault.cause(),
                _ => result is None,
            },
    {
        match &self.stage {
            LinkStage::Finished(Ok(_)) => match &self.destination {
                Some(path) => Some(Ok(path.clone())),
                None => None,
            },
            LinkStage::Finished(Err(fault)) => Some(Err(self.report(fault))),
            _ => None,
        }
    }
}

/// Moves the entry at `source` into `target_dir` and leaves a link in its place.
pub fn move_and_link_one_path(
    platform: Platform,
    source: String,
    target_dir: &str,
    dry_run: bool,
) -> (moving: LinkMove)
    ensures
        moving.platform == platform,
        moving.source == source,
        moving.dry_run == dry_run,
        moving.stage is Inspecting,
        moving.heads_for(target_dir@),
        moving.valid(),
{
    match build_destination_path(platform, source.as_str(), target_dir) {
        Ok(destination) => {
            let same = same_path(platform, source.as_str(), destination.as_str());
            let outer = parent(platform, destination.as_str());
            LinkMove {
                platform,
                source,
                destination: Some(destination),
                parent: outer,
                same,
                dry_run,
                stage: LinkStage::Inspecting,
            }
        },
        Err(_) => LinkMove {
            platform,
            source,
            destination: None,
            parent: None,
            same: false,
            dry_run,
            stage: LinkStage::Inspecting,
        },
    }
}

// ---------------------------------------------------------------------------
// Whole moves

impl LinkMove {
    /// The move after all of `replies`.
    pub open spec fn run(self, replies: Seq<LinkReply>) -> LinkMove
        decreases replies.len(),
    {
        if replies.len() == 0 {
            self
        } else {
            self.run(replies.drop_last()).after(replies.last())
        }
    }

    /// What is asked for, one after the other, where `replies` come back.
    pub open spec fn requests(self, replies: Seq<LinkReply>) -> Seq<LinkRequest>
        decreases replies.len(),
    {
        if replies.len() == 0 {
            seq![]
        } else {
            let before = self.run(replies.drop_last());
            self.requests(replies.drop_last()) + (match before.asks() {
                Some(request) => seq![request],
                None => seq![],
            })
        }
    }
}

/// Whether a request leaves everything as it is.
pub open spec fn only_looks(request: LinkRequest) -> bool {
    request is Metadata || request is Exists
}

/// A dry run only looks, whatever it finds.
pub proof fn law_dry_run_moves_nothing(moving: LinkMove, replies: Seq<LinkReply>)
    requires
        moving.stage is Inspecting,
        moving.dry_run,
    ensures
        moving.run(replies).asks() matches Some(request) ==> only_looks(request),
        forall|i: int|
            0 <= i < moving.requests(replies).len() ==> only_looks(
                #[trigger] moving.requests(replies)[i],
            ),
{
    lemma_dry_run_only_looks(moving, replies);
}

proof fn lemma_dry_run_only_looks(moving: LinkMove, replies: Seq<LinkReply>)
    requires
        moving.stage is Inspecting,
        moving.dry_run,
    ensures
        moving.run(replies).dry_run,
        match moving.run(replies).stage {
            LinkStage::Inspecting => true,
            LinkStage::Checking { .. } => true,
            LinkStage::Finished(_) => true,
            _ => false,
        },
        forall|i: int|
            0 <= i < moving.requests(replies).len() ==> only_looks(
                #[trigger] moving.requests(replies)[i],
            ),
    decreases replies.len(),
{
    if replies.len() > 0 {
        lemma_dry_run_only_looks(moving, replies.drop_last());
        let earlier = moving.requests(replies.drop_last());
        assert forall|i: int| 0 <= i < moving.requests(replies).len() implies only_looks(
            #[trigger] moving.requests(replies)[i],
        ) by {
            if i < earlier.len() {
                assert(moving.requests(replies)[i] == earlier[i]);
            }
        }
    }
}

/// An entry goes only where nothing is, and never onto itself: a step from which
/// on the disk is changed comes only after the answer that the destination is
/// free, and only outside of dry runs.
pub proof fn law_nothing_is_overwritten(moving: LinkMove, reply: LinkReply)
    requires
        moving.valid(),
        moving.awaits(reply),
        moving.asks() matches Some(request) && only_looks(request),
        moving.after(reply).asks() matches Some(request) && !only_looks(request),
    ensures
        moving.asks() == Some(LinkRequest::Exists { path: moving.destination->0 }),
        reply == LinkReply::Exists(false),
        !moving.same,
        !moving.dry_run,
{
}

/// A move onto the same path is refused before anything else is asked.
pub proof fn law_same_path_is_refused(moving: LinkMove, metadata: FileMeta)
    requires
        moving.valid(),
        moving.stage is Inspecting,
        moving.destination is Some,
        moving.same,
    ensures
        moving.after(LinkReply::Metadata(Ok(metadata))).stage == LinkStage::Finished(
            Err(LinkFault::SamePath),
        ),
{
}

/// A move that is not a dry run succeeds only with the link in place.
pub proof fn law_success_leaves_a_link(moving: LinkMove, reply: LinkReply)
    requires
        moving.valid(),
        moving.awaits(reply),
        !moving.dry_run,
        moving.after(reply).stage matches LinkStage::Finished(Ok(_)),
    ensures
        moving.asks() is Some,
        moving.asks()->0 is Symlink,
        reply == LinkReply::Done(Ok(())),
{
    if moving.stage is Linking {
        assert(reply->Done_0->Ok_0 == ());
    }
}

/// Where the link is refused, the entry is moved back to its place, once, and
/// the move is reported as failed whether or not that works.
pub proof fn law_refused_link_is_rolled_back(
    moving: LinkMove,
    kind: SourceKind,
    symlink: Symlink<String>,
    err: IoError,
    rollback: Result<(), IoError>,
)
    requires
        moving.valid(),
        moving.stage == (LinkStage::Linking { kind, symlink }),
    ensures
        ({
            let refused = moving.after(LinkReply::Done(Err(err)));
            let end = refused.after(LinkReply::Done(rollback));
            &&& refused.asks() == Some(
                LinkRequest::MovePath { from: moving.destination->0, to: moving.source, kind },
            )
            &&& end.asks() is None
            &&& end.stage == LinkStage::Finished(
                Err(LinkFault::Link { target: symlink.target, refusal: Some(err), rollback }),
            )
        }),
{
}

/// Where nothing stands in the way, an entry is moved to its destination and a
/// link to it takes its place.
pub proof fn law_move_and_link_in_order(
    moving: LinkMove,
    metadata: FileMeta,
    located: Result<String, IoError>,
)
    requires
        moving.stage is Inspecting,
        moving.valid(),
        moving.destination is Some,
        !moving.same,
        !moving.dry_run,
        !(moving.platform is Other),
    ensures
        ({
            let kind = if metadata.is_dir {
                SourceKind::Directory
            } else {
                SourceKind::File
            };
            let call = if moving.platform is Unix {
                SymlinkCall::Unix
            } else if metadata.is_dir {
                SymlinkCall::WindowsDir
            } else {
                SymlinkCall::WindowsFile
            };
            let destination = moving.destination->0;
            let target = match located {
                Ok(path) => path,
                Err(_) => destination,
            };
            let done = LinkReply::Done(Ok(()));
            let looked = seq![LinkReply::Metadata(Ok(metadata)), LinkReply::Exists(false)];
            let around = if moving.parent is Some {
                looked.push(done)
            } else {
                looked
            };
            let replies = around.push(done).push(LinkReply::Canonical(located)).push(done);
            let asked = seq![
                LinkRequest::Metadata { path: moving.source },
                LinkRequest::Exists { path: destination },
            ];
            let created = if moving.parent is Some {
                asked.push(LinkRequest::CreateDirAll { path: moving.parent->0 })
            } else {
                asked
            };
            &&& moving.run(replies).stage == LinkStage::Finished(Ok(()))
            &&& moving.requests(replies) == created.push(
                LinkRequest::MovePath { from: moving.source, to: destination, kind },
            ).push(LinkRequest::Canonicalize { path: destination }).push(
                LinkRequest::Symlink(Symlink { call, target, link: moving.source }),
            )
        }),
{
    let done = LinkReply::Done(Ok(()));
    let first = LinkReply::Metadata(Ok(metadata));
    let one = seq![first];
    let looked = seq![first, LinkReply::Exists(false)];
    assert(one.drop_last() =~= seq![]);
    assert(looked.drop_last() =~= one);
    assert(moving.run(seq![]) == moving);
    assert(moving.requests(seq![]) =~= seq![]);
    assert(moving.run(one) == moving.after(first));
    assert(moving.run(looked) == moving.after(first).after(LinkReply::Exists(false)));
    assert(moving.requests(one) =~= seq![LinkRequest::Metadata { path: moving.source }]);
    assert(moving.requests(looked) =~= seq![
        LinkRequest::Metadata { path: moving.source },
        LinkRequest::Exists { path: moving.destination->0 },
    ]);
    let around = if moving.parent is Some {
        looked.push(done)
    } else {
        looked
    };
    lemma_one_more(moving, looked, done);
    lemma_one_more(moving, around, done);
    lemma_one_more(moving, around.push(done), LinkReply::Canonical(located));
    lemma_one_more(moving, around.push(done).push(LinkReply::Canonical(located)), done);
}

proof fn lemma_one_more(moving: LinkMove, replies: Seq<LinkReply>, reply: LinkReply)
    ensures
        moving.run(replies.push(reply)) == moving.run(replies).after(reply),
        moving.run(replies).asks() is Some ==> moving.requests(replies.push(reply))
            == moving.requests(replies).push(moving.run(replies).asks()->0),
{
    assert(replies.push(reply).drop_last() =~= replies);
    if moving.run(replies).asks() is Some {
        assert(moving.requests(replies.push(reply)) =~= moving.requests(replies).push(
            moving.run(replies).asks()->0,
        ));
    }
}

// ---------------------------------------------------------------------------
// Runs

/// Starts the moving of `sources` into the directory given, or into the one that
/// the config file names.
pub fn run_move_link(cli: &Cli, sources: Vec<String>, target_dir: Option<String>) -> (run: Result<
    MoveRun<MoveFailureEntry>,
    ErrorReport,
>)
    ensures
        MoveRun::started(run, *cli, sources, target_dir),
{
    MoveRun::start(cli, sources, target_dir)
}

/// What is reported of an entry that was not moved.
pub fn failure_entry(source: String, destination: Option<String>, report: ErrorReport) -> (entry:
    MoveFailureEntry)
    ensures
        entry == (MoveFailureEntry { source, destination, error: report.message }),
{
    MoveFailureEntry { source, destination, error: report.message }
}

impl LinkMove {
    /// Whether this is the move of the next source of a batch, not yet begun.
    pub open spec fn is_next_of(self, platform: Platform, batch: Batch<MoveFailureEntry>) -> bool {
        &&& self.platform == platform
        &&& self.source == batch.sources@[batch.next as int]
        &&& self.dry_run == batch.dry_run
        &&& self.stage is Inspecting
        &&& self.heads_for(batch.target_dir@)
        &&& self.valid()
    }

    /// Whether the move ended with `result`: a failure is reported with the source
    /// and the destination of this move.
    pub open spec fn settled(self, result: Result<(), MoveFailureEntry>) -> bool {
        match self.stage {
            LinkStage::Finished(Ok(_)) => result is Ok,
            LinkStage::Finished(Err(fault)) => {
                &&& result matches Err(entry)
                &&& entry.source == self.source
                &&& entry.destination == self.destination
                &&& entry.error@ == self.message(fault)
            },
            _ => false,
        }
    }

    /// What a run counts of the move, once it is finished.
    pub fn settle(&self) -> (result: Option<Result<(), MoveFailureEntry>>)
        requires
            self.valid(),
        ensures
            match result {
                Some(result) => self.settled(result),
                None => !(self.stage is Finished),
            },
    {
        match self.result() {
            None => None,
            Some(Ok(_)) => Some(Ok(())),
            Some(Err(report)) => {
                let destination = match &self.destination {
                    Some(path) => Some(path.clone()),
                    None => None,
                };
                Some(Err(failure_entry(self.source.clone(), destination, report)))
            },
        }
    }
}

/// The move of the next source of a batch, where one is to be moved.
pub fn next_move(platform: Platform, batch: &Batch<MoveFailureEntry>) -> (moving: Option<LinkMove>)
    requires
        batch.valid(),
    ensures
        match moving {
            Some(moving) => batch.stage == BatchStage::Moving && moving.is_next_of(
                platform,
                *batch,
            ),
            None => batch.stage != BatchStage::Moving,
        },
{
    match batch.stage {
        BatchStage::Moving => {
            let source = batch.sources[batch.next].clone();
            Some(move_and_link_one_path(platform, source, batch.target_dir.as_str(), batch.dry_run))
        },
        _ => None,
    }
}

/// Whether `destination` is where `source` goes in `target_dir`, if it has a name.
pub open spec fn has_destination(
    platform: Platform,
    source: Seq<char>,
    target_dir: Seq<char>,
    destination: Option<String>,
) -> bool {
    match destination {
        Some(path) => is_destination(platform, source, target_dir, Ok(path)),
        None => file_name_of(platform, source) is None,
    }
}

proof fn lemma_same_entry(moving: LinkMove, replies: Seq<LinkReply>)
    ensures
        moving.run(replies).platform == moving.platform,
        moving.run(replies).source == moving.source,
        moving.run(replies).destination == moving.destination,
    decreases replies.len(),
{
    if replies.len() > 0 {
        lemma_same_entry(moving, replies.drop_last());
    }
}

/// A run whose target directory is there, or that needs none, moves every source
/// in turn, and what fails does not stop it. Its counts add up to the number of
/// sources. Its failures are, in the order of the sources, those of exactly the
/// sources whose move failed, each with the destination of its own source and
/// with what went wrong there.
pub proof fn law_run_reports_exactly_the_failed_moves(
    platform: Platform,
    batch: Batch<MoveFailureEntry>,
    states: Seq<Batch<MoveFailureEntry>>,
    moves: Seq<LinkMove>,
    replies: Seq<Seq<LinkReply>>,
    results: Seq<Result<(), MoveFailureEntry>>,
)
    requires
        goes_through(batch, states, results),
        moves.len() == results.len(),
        replies.len() == results.len(),
        forall|i: int|
            0 <= i < results.len() ==> (#[trigger] moves[i]).is_next_of(platform, states[i]),
        forall|i: int|
            0 <= i < results.len() ==> (#[trigger] moves[i]).run(replies[i]).settled(results[i]),
    ensures
        ({
            let sources = batch.sources@;
            let target_dir = batch.target_dir@;
            let outcome = states.last().comes_to();
            let failed = failed_in(results);
            &&& states.last().stage == BatchStage::Finished
            &&& outcome.total == sources.len()
            &&& outcome.succeeded + outcome.failed == outcome.total
            &&& outcome.failed == outcome.failures@.len() == failed.len()
            &&& forall|i: int|
                0 <= i < sources.len() ==> {
                    &&& (#[trigger] moves[i]).source == sources[i]
                    &&& moves[i].dry_run == batch.dry_run
                    &&& moves[i].heads_for(target_dir)
                }
            &&& forall|i: int|
                0 <= i < sources.len() ==> (#[trigger] failed.contains(i) <==> (moves[i].run(
                    replies[i],
                ).stage matches LinkStage::Finished(Err(_))))
            &&& forall|k: int, l: int|
                0 <= k < l < failed.len() ==> #[trigger] failed[k] < #[trigger] failed[l]
            &&& forall|k: int|
                0 <= k < failed.len() ==> {
                    let i = #[trigger] failed[k];
                    let entry = outcome.failures@[k];
                    &&& 0 <= i < sources.len()
                    &&& entry.source == sources[i]
                    &&& has_destination(platform, sources[i]@, target_dir, entry.destination)
                    &&& moves[i].run(replies[i]).settled(Err(entry))
                }
        }),
{
    let sources = batch.sources@;
    let target_dir = batch.target_dir@;
    let outcome = states.last().comes_to();
    let failed = failed_in(results);
    law_batch_tries_every_source(batch, states, results);
    law_failures_are_those_of_the_failed_moves(results);
    assert forall|i: int| 0 <= i < sources.len() implies {
        &&& (#[trigger] moves[i]).source == sources[i]
        &&& moves[i].dry_run == batch.dry_run
        &&& moves[i].heads_for(target_dir)
    } by {
        assert(moves[i].is_next_of(platform, states[i]));
    }
    assert forall|i: int| 0 <= i < sources.len() implies (#[trigger] failed.contains(i) <==> (
    moves[i].run(replies[i]).stage matches LinkStage::Finished(Err(_)))) by {
        assert(moves[i].run(replies[i]).settled(results[i]));
    }
    assert forall|k: int| 0 <= k < failed.len() implies {
        let i = #[trigger] failed[k];
        let entry = outcome.failures@[k];
        &&& 0 <= i < sources.len()
        &&& entry.source == sources[i]
        &&& has_destination(platform, sources[i]@, target_dir, entry.destination)
        &&& moves[i].run(replies[i]).settled(Err(entry))
    } by {
        let i = failed[k];
        assert(moves[i].is_next_of(platform, states[i]));
        assert(moves[i].run(replies[i]).settled(results[i]));
        lemma_same_entry(moves[i], replies[i]);
    }
}

/// One entry that was not moved, on a line of the summary.
pub open spec fn failure_line(failure: MoveFailureEntry) -> Seq<char> {
    "- source="@ + failure.source@ + " | destination="@ + (match failure.destination {
        Some(path) => path@,
        None => "unknown"@,
    }) + " | "@ + failure.error@
}

/// What the moves came to, as the user sees it.
pub open spec fn summary(outcome: MoveOutcome<MoveFailureEntry>, dry_run: bool) -> Seq<char> {
    move_summary(
        outcome,
        dry_run,
        "move-link"@,
        "Move-link failures:"@,
        Seq::new(outcome.failures@.len(), |i: int| failure_line(outcome.failures@[i])),
    )
}

fn failure_line_text(failure: &MoveFailureEntry) -> (line: String)
    ensures
        line@ == failure_line(*failure),
{
    let destination = match &failure.destination {
        Some(path) => path.as_str(),
        None => "unknown",
    };
    "- source=".to_owned().concat(failure.source.as_str()).concat(" | destination=").concat(
        destination,
    ).concat(" | ").concat(failure.error.as_str())
}

/// Writes the summary of the moves.
pub fn summary_text(outcome: &MoveOutcome<MoveFailureEntry>, dry_run: bool) -> (out: String)
    ensures
        out@ == summary(*outcome, dry_run),
{
    let mut lines: Vec<String> = Vec::new();
    let mut i: usize = 0;
    while i < outcome.failures.len()
        invariant
            i <= outcome.failures.len(),
            lines@.len() == i,
            forall|j: int| 0 <= j < i ==> #[trigger] lines@[j]@ == failure_line(
                outcome.failures@[j],
            ),
        decreases outcome.failures.len() - i,
    {
        lines.push(failure_line_text(&outcome.failures[i]));
        i += 1;
    }
    assert(texts(lines@) =~= Seq::new(
        outcome.failures@.len(),
        |i: int| failure_line(outcome.failures@[i]),
    ));
    move_summary_text(outcome, dry_run, "move-link", "Move-link failures:", &lines)
}

// ---------------------------------------------------------------------------
// Single steps

/// Whether a move treats its entry as a directory exactly if it is to.
pub open spec fn moves_as(moving: LinkMove, directory: bool) -> bool {
    match moving.stage {
        LinkStage::Inspecting => false,
        LinkStage::Checking { kind } => kind is Directory <==> directory,
        LinkStage::CreatingParent { kind } => kind is Directory <==> directory,
        LinkStage::Moving { kind } => kind is Directory <==> directory,
        LinkStage::Locating { kind } => kind is Directory <==> directory,
        LinkStage::Linking { kind, symlink } => {
            &&& kind is Directory <==> directory
            &&& symlink.link == moving.source
            &&& moving.platform is Unix ==> symlink.call is Unix
            &&& moving.platform is Windows && directory ==> symlink.call is WindowsDir
            &&& moving.platform is Windows && !directory ==> symlink.call is WindowsFile
        },
        LinkStage::RollingBack { kind, .. } => kind is Directory <==> directory,
        LinkStage::Finished(_) => true,
    }
}

proof fn lemma_moves_as(moving: LinkMove, metadata: FileMeta, replies: Seq<LinkReply>)
    requires
        moving.stage is Inspecting,
    ensures
        ({
            let end = moving.after(LinkReply::Metadata(Ok(metadata))).run(replies);
            &&& moves_as(end, metadata.is_dir)
            &&& end == (LinkMove { stage: end.stage, ..moving })
        }),
    decreases replies.len(),
{
    if replies.len() > 0 {
        lemma_moves_as(moving, metadata, replies.drop_last());
    }
}

/// From the look at the source on, whatever the replies: the entry is moved, and
/// moved back, as a directory exactly if it is one, and the link in its place is
/// made on Windows by the call for directories exactly if it is one, else by the
/// call for files.
pub proof fn law_directories_are_moved_and_linked_as_such(
    moving: LinkMove,
    metadata: FileMeta,
    replies: Seq<LinkReply>,
)
    requires
        moving.stage is Inspecting,
        moving.destination is Some,
        !moving.same,
    ensures
        ({
            let later = moving.after(LinkReply::Metadata(Ok(metadata))).run(replies);
            &&& later.asks() matches Some(LinkRequest::MovePath { kind, .. }) ==> (kind
                == if metadata.is_dir {
                SourceKind::Directory
            } else {
                SourceKind::File
            })
            &&& later.asks() matches Some(LinkRequest::Symlink(symlink)) ==> {
                &&& symlink.link == moving.source
                &&& moving.platform is Unix ==> symlink.call is Unix
                &&& moving.platform is Windows ==> symlink.call == if metadata.is_dir {
                    SymlinkCall::WindowsDir
                } else {
                    SymlinkCall::WindowsFile
                }
            }
        }),
{
    lemma_moves_as(moving, metadata, replies);
}

/// The source is looked at first. Without a name, or onto itself, it is not moved;
/// else the next question is whether its destination is taken.
pub proof fn law_source_is_looked_at_first(moving: LinkMove, metadata: FileMeta, err: IoError)
    requires
        moving.stage is Inspecting,
    ensures
        moving.asks() == Some(LinkRequest::Metadata { path: moving.source }),
        moving.after(LinkReply::Metadata(Err(err))).stage == LinkStage::Finished(
            Err(LinkFault::Metadata(err)),
        ),
        ({
            let seen = moving.after(LinkReply::Metadata(Ok(metadata)));
            &&& seen == (LinkMove { stage: seen.stage, ..moving })
            &&& match moving.destination {
                None => seen.stage == LinkStage::Finished(Err(LinkFault::NoFileName)),
                Some(path) => if moving.same {
                    seen.stage == LinkStage::Finished(Err(LinkFault::SamePath))
                } else {
                    seen.asks() == Some(LinkRequest::Exists { path })
                },
            }
        }),
{
}

/// A taken destination ends the move. A free one is enough for a dry run; else the
/// directory around it is created where there is one, and the source moved there.
pub proof fn law_entry_goes_to_its_destination(
    moving: LinkMove,
    kind: SourceKind,
    destination: String,
    err: IoError,
)
    requires
        moving.stage == (LinkStage::Checking { kind }),
        moving.destination == Some(destination),
    ensures
        moving.after(LinkReply::Exists(true)).stage == LinkStage::Finished(
            Err(LinkFault::DestinationExists),
        ),
        ({
            let free = moving.after(LinkReply::Exists(false));
            let goes = LinkRequest::MovePath { from: moving.source, to: destination, kind };
            &&& free == (LinkMove { stage: free.stage, ..moving })
            &&& moving.dry_run ==> free.stage == LinkStage::Finished(Ok(()))
            &&& !moving.dry_run ==> match moving.parent {
                None => free.asks() == Some(goes),
                Some(dir) => {
                    let created = free.after(LinkReply::Done(Ok(())));
                    &&& free.asks() == Some(LinkRequest::CreateDirAll { path: dir })
                    &&& free.after(LinkReply::Done(Err(err))).stage == LinkStage::Finished(
                        Err(LinkFault::CreateParent(err)),
                    )
                    &&& created == (LinkMove { stage: created.stage, ..moving })
                    &&& created.asks() == Some(goes)
                },
            }
        }),
{
}

/// A moved entry is linked to by its full path, or by its destination where that
/// cannot be found out. Without a link it goes back to where it was, and the move
/// has failed.
pub proof fn law_moved_entry_is_linked_or_comes_back(
    moving: LinkMove,
    kind: SourceKind,
    destination: String,
    located: Result<String, IoError>,
    err: IoError,
    rollback: Result<(), IoError>,
)
    requires
        moving.stage == (LinkStage::Moving { kind }),
        moving.destination == Some(destination),
    ensures
        moving.after(LinkReply::Done(Err(err))).stage == LinkStage::Finished(
            Err(LinkFault::Move { kind, error: err }),
        ),
        ({
            let moved = moving.after(LinkReply::Done(Ok(())));
            let linking = moved.after(LinkReply::Canonical(located));
            let target = match located {
                Ok(path) => path,
                Err(_) => destination,
            };
            let back = LinkRequest::MovePath { from: destination, to: moving.source, kind };
            &&& moved.asks() == Some(LinkRequest::Canonicalize { path: destination })
            &&& linking == (LinkMove { stage: linking.stage, ..moving })
            &&& moving.platform is Other ==> {
                &&& linking.asks() == Some(back)
                &&& linking.after(LinkReply::Done(rollback)).stage == LinkStage::Finished(
                    Err(LinkFault::Link { target, refusal: None, rollback }),
                )
            }
            &&& !(moving.platform is Other) ==> {
                let refused = linking.after(LinkReply::Done(Err(err)));
                &&& linking.asks() == Some(
                    LinkRequest::Symlink(
                        Symlink {
                            call: if moving.platform is Unix {
                                SymlinkCall::Unix
                            } else if kind is Directory {
                                SymlinkCall::WindowsDir
                            } else {
                                SymlinkCall::WindowsFile
                            },
                            target,
                            link: moving.source,
                        },
                    ),
                )
                &&& linking.after(LinkReply::Done(Ok(()))).stage == LinkStage::Finished(Ok(()))
                &&& refused.asks() == Some(back)
                &&& refused.after(LinkReply::Done(rollback)).stage == LinkStage::Finished(
                    Err(LinkFault::Link { target, refusal: Some(err), rollback }),
                )
            }
        }),
{
}

/// A move heads for the target directory under the name of its source, with the
/// directory around that destination, and knows whether that is where it is
/// already. A source without a name heads nowhere.
pub proof fn law_move_heads_for_its_own_name(
    moving: LinkMove,
    target_dir: Seq<char>,
    built: Result<String, ErrorReport>,
)
    requires
        moving.heads_for(target_dir),
        is_destination(moving.platform, moving.source@, target_dir, built),
    ensures
        match file_name_of(moving.platform, moving.source@) {
            None => moving.destination is None && (built matches Err(report) && report.cause is None
                && report.message@ == "source path has no file name: "@ + moving.source@),
            Some(name) => {
                let path = joined_path(moving.platform, target_dir, name);
                &&& built matches Ok(text) && text@ == path
                &&& moving.destination matches Some(text) && text@ == path
                &&& moving.same <==> same_parts(moving.platform, moving.source@, path)
                &&& moving.parent is Some <==> parent_of(moving.platform, path) is Some
                &&& moving.parent matches Some(dir) ==> parent_of(moving.platform, path) == Some(
                    dir@,
                )
            },
        },
{
}

/// A failed move says what failed, with the paths that it is about, and has the
/// error of the system behind it where there is one.
pub proof fn law_failed_move_says_what_failed(
    moving: LinkMove,
    destination: String,
    parent: String,
    kind: SourceKind,
    err: IoError,
    target: String,
    rollback: IoError,
)
    requires
        moving.destination == Some(destination),
        moving.parent == Some(parent),
    ensures
        moving.message(LinkFault::Metadata(err)) == "failed to read source metadata: "@
            + moving.source@,
        LinkFault::Metadata(err).cause() == Some(err.text),
        LinkFault::NoFileName.cause() is None,
        LinkFault::SamePath.cause() is None,
        LinkFault::DestinationExists.cause() is None,
        (LinkFault::Link { target, refusal: Some(err), rollback: Err(rollback) }).cause() is None,
        moving.message(LinkFault::NoFileName) == "source path has no file name: "@ + moving.source@,
        moving.message(LinkFault::SamePath) == "source and destination are the same path: "@
            + moving.source@,
        moving.message(LinkFault::DestinationExists)
            == "destination already exists, refusing to overwrite: "@ + destination@,
        moving.message(LinkFault::CreateParent(err))
            == "failed to create destination parent directory "@ + parent@,
        LinkFault::CreateParent(err).cause() == Some(err.text),
        moving.message(LinkFault::Move { kind, error: err }) == "failed to move "@ + (
        if kind is Directory {
            "directory"@
        } else {
            "file"@
        }) + " from "@ + moving.source@ + " to "@ + destination@,
        (LinkFault::Move { kind, error: err }).cause() == Some(err.text),
        ({
            let refused = "failed to create symlink at "@ + moving.source@ + " -> "@ + target@
                + ": "@;
            let unlinked = |refusal: Option<IoError>, rollback: Result<(), IoError>|
                moving.message(LinkFault::Link { target, refusal, rollback });
            &&& unlinked(Some(err), Ok(())) == refused + err.text@
            &&& unlinked(Some(err), Err(rollback)) == refused + err.text@ + "; rollback failed: "@
                + rollback.text@
            &&& unlinked(None, Ok(())) == refused
                + "symbolic links are not supported on this platform"@
            &&& unlinked(None, Err(rollback)) == refused
                + "symbolic links are not supported on this platform"@ + "; rollback failed: "@
                + rollback.text@
        }),
{
}

/// A finished move counts as it ended; a failure is reported with its own source,
/// destination and reason.
pub proof fn law_settled_moves_count_as_they_ended(
    moving: LinkMove,
    result: Result<(), MoveFailureEntry>,
)
    requires
        moving.settled(result),
    ensures
        moving.asks() is None,
        result is Ok <==> moving.stage matches LinkStage::Finished(Ok(_)),
        result matches Err(entry) ==> {
            &&& entry.source == moving.source
            &&& entry.destination == moving.destination
            &&& moving.stage matches LinkStage::Finished(Err(fault)) && entry.error@
                == moving.message(fault)
        },
{
}

/// The summary has one line for each entry that was not moved, with its source,
/// its destination as far as it is known, and the reason.
pub proof fn law_summary_lists_the_failed_moves(
    outcome: MoveOutcome<MoveFailureEntry>,
    dry_run: bool,
    failure: MoveFailureEntry,
    lines: Seq<Seq<char>>,
)
    requires
        lines.len() == outcome.failures@.len(),
        forall|i: int|
            0 <= i < lines.len() ==> #[trigger] lines[i] == failure_line(outcome.failures@[i]),
    ensures
        summary(outcome, dry_run) == move_summary(
            outcome,
            dry_run,
            "move-link"@,
            "Move-link failures:"@,
            lines,
        ),
        failure_line(failure) == "- source="@ + failure.source@ + " | destination="@ + (
        match failure.destination {
            Some(path) => path@,
            None => "unknown"@,
        }) + " | "@ + failure.error@,
{
    assert(lines =~= Seq::new(
        outcome.failures@.len(),
        |i: int| failure_line(outcome.failures@[i]),
    ));
}

/// The next move of a batch is that of its next source, into its target directory,
/// from the beginning.
pub proof fn law_next_move_follows_its_batch(
    moving: LinkMove,
    platform: Platform,
    batch: Batch<MoveFailureEntry>,
)
    requires
        batch.valid(),
        batch.stage == BatchStage::Moving,
        moving.is_next_of(platform, batch),
    ensures
        moving.platform == platform,
        moving.source == batch.sources@[batch.next as int],
        moving.dry_run <==> batch.dry_run,
        moving.asks() == Some(LinkRequest::Metadata { path: batch.sources@[batch.next as int] }),
        has_destination(platform, moving.source@, batch.target_dir@, moving.destination),
{
}

} // verus!
