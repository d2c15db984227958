//! Copying a directory with everything in it.
use crate::fault::{ErrorKind, FileMeta, IoError};
use crate::path::{join, joined_path};
use crate::platform::Platform;
use crate::symlink::{
    create_symlink_like_source, link_destination, linked_kind, no_symlinks, resolve_link,
    says_no_symlinks, symlink_call, Symlink, SymlinkCall,
};
use crate::text::texts;
use vstd::prelude::*;

verus! {

/// What a copy asks for.
#[derive(Debug)]
pub enum CopyRequest<P> {
    CreateDirAll { path: P },
    /// A listing of the directory, which is the innermost from then on.
    ReadDir { path: P },
    /// The next entry of the innermost listing, which ends with it.
    NextEntry,
    /// What the path is, without following a link.
    SymlinkMetadata { path: P },
    CopyFile { from: P, to: P },
    ReadLink { path: P },
    /// Whether the path leads to a directory.
    IsDir { path: P },
    Symlink(Symlink<P>),
}

/// An entry of a listing.
#[derive(Debug)]
pub struct DirEntry {
    pub path: String,
    pub name: String,
}

/// The answer to a request of a copy.
#[derive(Debug)]
pub enum CopyReply {
    Done(Result<(), IoError>),
    Entry(Option<Result<DirEntry, IoError>>),
    Metadata(Result<FileMeta, IoError>),
    LinkTarget(Result<String, IoError>),
    IsDir(bool),
}

/// Why a copy failed.
#[derive(Debug)]
pub enum CopyFault<P> {
    Io(IoError),
    /// There are no links on this platform.
    NoSymlinks,
    /// The entry is neither file nor directory nor link.
    Unsupported { path: P },
}

/// Where a copy stands.
#[derive(Debug)]
pub enum CopyStage<P> {
    /// The copy of this directory is being created.
    Creating { source: P, destination: P },
    /// This directory is being opened.
    Opening { source: P, destination: P },
    /// The next entry of the innermost directory is being read.
    Listing,
    /// This entry is being looked at.
    Inspecting { source: P, destination: P },
    /// This file is being copied.
    Copying { source: P, destination: P },
    /// The target of this link is being read.
    ReadingLink { source: P, destination: P },
    /// Whether this link leads to a directory is being found out.
    Following { source: P, target: P, destination: P },
    /// The copy of a link is being made.
    Linking(Symlink<P>),
    Finished(Result<(), CopyFault<P>>),
}

/// The copying of a directory with everything in it.
#[derive(Debug)]
pub struct CopyTree {
    pub platform: Platform,
    /// The copies of the directories that are open, the innermost last.
    pub destinations: Vec<String>,
    pub stage: CopyStage<String>,
}

/// A copy under way.
pub struct Copying {
    pub platform: Platform,
    pub levels: Seq<Seq<char>>,
    pub stage: CopyStage<Seq<char>>,
}

impl View for CopyRequest<String> {
    type V = CopyRequest<Seq<char>>;

    open spec fn view(&self) -> CopyRequest<Seq<char>> {
        match *self {
            CopyRequest::CreateDirAll { path } => CopyRequest::CreateDirAll { path: path@ },
            CopyRequest::ReadDir { path } => CopyRequest::ReadDir { path: path@ },
            CopyRequest::NextEntry => CopyRequest::NextEntry,
            CopyRequest::SymlinkMetadata { path } => CopyRequest::SymlinkMetadata { path: path@ },
            CopyRequest::CopyFile { from, to } => CopyRequest::CopyFile { from: from@, to: to@ },
            CopyRequest::ReadLink { path } => CopyRequest::ReadLink { path: path@ },
            CopyRequest::IsDir { path } => CopyRequest::IsDir { path: path@ },
            CopyRequest::Symlink(symlink) => CopyRequest::Symlink(symlink@),
        }
    }
}

impl View for CopyFault<String> {
    type V = CopyFault<Seq<char>>;

    open spec fn view(&self) -> CopyFault<Seq<char>> {
        match *self {
            CopyFault::Io(err) => CopyFault::Io(err),
            CopyFault::NoSymlinks => CopyFault::NoSymlinks,
            CopyFault::Unsupported { path } => CopyFault::Unsupported { path: path@ },
        }
    }
}

impl View for CopyStage<String> {
    type V = CopyStage<Seq<char>>;

    open spec fn view(&self) -> CopyStage<Seq<char>> {
        match *self {
            CopyStage::Creating { source, destination } => CopyStage::Creating {
                source: source@,
                destination: destination@,
            },
            CopyStage::Opening { source, destination } => CopyStage::Opening {
                source: source@,
                destination: destination@,
            },
            CopyStage::Listing => CopyStage::Listing,
            CopyStage::Inspecting { source, destination } => CopyStage::Inspecting {
                source: source@,
                destination: destination@,
            },
            CopyStage::Copying { source, destination } => CopyStage::Copying {
                source: source@,
                destination: destination@,
            },
            CopyStage::ReadingLink { source, destination } => CopyStage::ReadingLink {
                source: source@,
                destination: destination@,
            },
            CopyStage::Following { source, target, destination } => CopyStage::Following {
                source: source@,
                target: target@,
                destination: destination@,
            },
            CopyStage::Linking(symlink) => CopyStage::Linking(symlink@),
            CopyStage::Finished(Ok(_)) => CopyStage::Finished(Ok(())),
            CopyStage::Finished(Err(fault)) => CopyStage::Finished(Err(fault@)),
        }
    }
}

impl View for CopyTree {
    type V = Copying;

    open spec fn view(&self) -> Copying {
        Copying {
            platform: self.platform,
            levels: texts(self.destinations@),
            stage: self.stage@,
        }
    }
}

impl Copying {
    /// The copying of the directory `source` to `destination`, not yet begun.
    pub open spec fn fresh(
        platform: Platform,
        source: Seq<char>,
        destination: Seq<char>,
    ) -> Copying {
        Copying { platform, levels: seq![], stage: CopyStage::Creating { source, destination } }
    }

    /// Entries are read only where a directory is open.
    pub open spec fn valid(self) -> bool {
        self.stage is Listing ==> self.levels.len() > 0
    }

    /// What is asked for next.
    pub open spec fn asks(self) -> Option<CopyRequest<Seq<char>>> {
        match self.stage {
            CopyStage::Creating { destination, .. } => Some(
                CopyRequest::CreateDirAll { path: destination },
            ),
            CopyStage::Opening { source, .. } => Some(CopyRequest::ReadDir { path: source }),
            CopyStage::Listing => Some(CopyRequest::NextEntry),
            CopyStage::Inspecting { source, .. } => Some(
                CopyRequest::SymlinkMetadata { path: source },
            ),
            CopyStage::Copying { source, destination } => Some(
                CopyRequest::CopyFile { from: source, to: destination },
            ),
            CopyStage::ReadingLink { source, .. } => Some(CopyRequest::ReadLink { path: source }),
            CopyStage::Following { source, target, .. } => Some(
                CopyRequest::IsDir { path: link_destination(self.platform, source, target) },
            ),
            CopyStage::Linking(symlink) => Some(CopyRequest::Symlink(symlink)),
            CopyStage::Finished(_) => None,
        }
    }

    /// Whether `reply` answers what is asked for.
    pub open spec fn awaits(self, reply: CopyReply) -> bool {
        match self.stage {
            CopyStage::Creating { .. } => reply is Done,
            CopyStage::Opening { .. } => reply is Done,
            CopyStage::Listing => reply is Entry,
            CopyStage::Inspecting { .. } => reply is Metadata,
            CopyStage::Copying { .. } => reply is Done,
            CopyStage::ReadingLink { .. } => reply is LinkTarget,
            CopyStage::Following { .. } => reply is IsDir,
            CopyStage::Linking(_) => reply is Done,
            CopyStage::Finished(_) => false,
        }
    }

    pub open spec fn failed(self, fault: CopyFault<Seq<char>>) -> Copying {
        Copying { stage: CopyStage::Finished(Err(fault)), ..self }
    }

    /// An entry is dealt with: the next one of the innermost directory follows.
    pub open spec fn up(self) -> Copying {
        if self.levels.len() > 0 {
            Copying { stage: CopyStage::Listing, ..self }
        } else {
            Copying { stage: CopyStage::Finished(Ok(())), ..self }
        }
    }

    /// An entry is known: it is copied as what it is.
    pub open spec fn seen(
        self,
        source: Seq<char>,
        destination: Seq<char>,
        metadata: FileMeta,
    ) -> Copying {
        Copying {
            stage: if metadata.is_dir {
                CopyStage::Creating { source, destination }
            } else if metadata.is_file {
                CopyStage::Copying { source, destination }
            } else if metadata.is_symlink {
                CopyStage::ReadingLink { source, destination }
            } else {
                CopyStage::Finished(Err(CopyFault::Unsupported { path: source }))
            },
            ..self
        }
    }

    /// The copy once `reply` has come in: the first failure ends it.
    pub open spec fn after(self, reply: CopyReply) -> Copying {
        match (self.stage, reply) {
            (CopyStage::Creating { source, destination }, CopyReply::Done(Ok(_))) => Copying {
                stage: CopyStage::Opening { source, destination },
                ..self
            },
            (CopyStage::Opening { destination, .. }, CopyReply::Done(Ok(_))) => Copying {
                levels: self.levels.push(destination),
                stage: CopyStage::Listing,
                ..self
            },
            (CopyStage::Listing, CopyReply::Entry(None)) => (Copying {
                levels: self.levels.drop_last(),
                ..self
            }).up(),
            (CopyStage::Listing, CopyReply::Entry(Some(Ok(entry)))) => Copying {
                stage: CopyStage::Inspecting {
                    source: entry.path@,
                    destination: joined_path(self.platform, self.levels.last(), entry.name@),
                },
                ..self
            },
            (CopyStage::Listing, CopyReply::Entry(Some(Err(err)))) => self.failed(
                CopyFault::Io(err),
            ),
            (
                CopyStage::Inspecting { source, destination },
                CopyReply::Metadata(Ok(metadata)),
            ) => self.seen(source, destination, metadata),
            (CopyStage::Inspecting { .. }, CopyReply::Metadata(Err(err))) => self.failed(
                CopyFault::Io(err),
            ),
            (CopyStage::Copying { .. }, CopyReply::Done(Ok(_))) => self.up(),
            (
                CopyStage::ReadingLink { source, destination },
                CopyReply::LinkTarget(Ok(target)),
            ) => Copying {
                stage: CopyStage::Following { source, target: target@, destination },
                ..self
            },
            (CopyStage::ReadingLink { .. }, CopyReply::LinkTarget(Err(err))) => self.failed(
                CopyFault::Io(err),
            ),
            (CopyStage::Following { target, destination, .. }, CopyReply::IsDir(is_dir)) => match symlink_call(
                self.platform,
                linked_kind(is_dir),
            ) {
                Some(call) => Copying {
                    stage: CopyStage::Linking(Symlink { call, target, link: destination }),
                    ..self
                },
                None => self.failed(CopyFault::NoSymlinks),
            },
            (CopyStage::Linking(_), CopyReply::Done(Ok(_))) => self.up(),
            (CopyStage::Finished(_), _) => self,
            (_, CopyReply::Done(Err(err))) => self.failed(CopyFault::Io(err)),
            _ => self,
        }
    }
}

impl CopyTree {
    /// What is to be done next; nothing once the copy is finished.
    pub fn request(&self) -> (request: Option<CopyRequest<String>>)
        ensures
            match self@.asks() {
                Some(expected) => request matches Some(asked) && asked@ == expected,
                None => request is None,
            },
    {
        match &self.stage {
            CopyStage::Creating { destination, .. } => Some(
                CopyRequest::CreateDirAll { path: destination.clone() },
            ),
            CopyStage::Opening { source, .. } => Some(
                CopyRequest::ReadDir { path: source.clone() },
            ),
            CopyStage::Listing => Some(CopyRequest::NextEntry),
            CopyStage::Inspecting { source, .. } => Some(
                CopyRequest::SymlinkMetadata { path: source.clone() },
            ),
            CopyStage::Copying { source, destination } => Some(
                CopyRequest::CopyFile { from: source.clone(), to: destination.clone() },
            ),
            CopyStage::ReadingLink { source, .. } => Some(
                CopyRequest::ReadLink { path: source.clone() },
            ),
            CopyStage::Following { source, target, .. } => Some(
                CopyRequest::IsDir {
                    path: resolve_link(self.platform, source.as_str(), target.as_str()),
                },
            ),
            CopyStage::Linking(symlink) => Some(
                CopyRequest::Symlink(
                    Symlink {
                        call: symlink.call,
                        target: symlink.target.clone(),
                        link: symlink.link.clone(),
                    },
                ),
            ),
            CopyStage::Finished(_) => None,
        }
    }

    fn go_up(&mut self)
        ensures
            final(self)@ == old(self)@.up(),
    {
        if self.destinations.len() > 0 {
            self.stage = CopyStage::Listing;
        } else {
            self.stage = CopyStage::Finished(Ok(()));
        }
    }

    fn fail(&mut self, err: IoError)
        ensures
            final(self)@ == old(self)@.failed(CopyFault::Io(err)),
    {
        self.stage = CopyStage::Finished(Err(CopyFault::Io(err)));
    }

    /// Goes on with the answer to the last request.
    pub fn resume(&mut self, reply: CopyReply)
        requires
            old(self)@.valid(),
            old(self)@.awaits(reply),
        ensures
            final(self)@ == old(self)@.after(reply),
            final(self)@.valid(),
    {
        let ghost levels = self@.levels;
        let mut stage: CopyStage<String> = CopyStage::Listing;
        std::mem::swap(&mut stage, &mut self.stage);
        match (stage, reply) {
            (CopyStage::Creating { source, destination }, CopyReply::Done(Ok(_))) => {
                self.stage = CopyStage::Opening { source, destination };
            },
            (CopyStage::Opening { destination, .. }, CopyReply::Done(Ok(_))) => {
                let ghost inner = destination@;
                self.destinations.push(destination);
                self.stage = CopyStage::Listing;
                assert(self@.levels =~= levels.push(inner));
            },
            (CopyStage::Listing, CopyReply::Entry(None)) => {
                self.destinations.pop();
                assert(self@.levels =~= levels.drop_last());
                self.go_up();
            },
            (CopyStage::Listing, CopyReply::Entry(Some(Ok(entry)))) => {
                let outer = &self.destinations[self.destinations.len() - 1];
                assert(outer@ == levels.last());
                let destination = join(self.platform, outer.as_str(), entry.name.as_str());
                self.stage = CopyStage::Inspecting { source: entry.path, destination };
            },
            (CopyStage::Inspecting { source, destination }, CopyReply::Metadata(Ok(metadata))) => {
                self.stage = if metadata.is_dir {
                    CopyStage::Creating { source, destination }
                } else if metadata.is_file {
                    CopyStage::Copying { source, destination }
                } else if metadata.is_symlink {
                    CopyStage::ReadingLink { source, destination }
                } else {
                    CopyStage::Finished(Err(CopyFault::Unsupported { path: source }))
                };
            },
            (CopyStage::Copying { .. }, CopyReply::Done(Ok(_))) => {
                self.go_up();
            },
            (CopyStage::ReadingLink { source, destination }, CopyReply::LinkTarget(Ok(target))) => {
                self.stage = CopyStage::Following { source, target, destination };
            },
            (CopyStage::Following { target, destination, .. }, CopyReply::IsDir(is_dir)) => {
                self.stage = match create_symlink_like_source(
                    self.platform,
                    is_dir,
                    target,
                    destination,
                ) {
                    Ok(symlink) => CopyStage::Linking(symlink),
                    Err(_) => CopyStage::Finished(Err(CopyFault::NoSymlinks)),
                };
            },
            (CopyStage::Linking(_), CopyReply::Done(Ok(_))) => {
                self.go_up();
            },
            (CopyStage::Finished(end), _) => {
                self.stage = CopyStage::Finished(end);
            },
            (_, CopyReply::Entry(Some(Err(err)))) => {
                self.fail(err);
            },
            (_, CopyReply::Metadata(Err(err))) => {
                self.fail(err);
            },
            (_, CopyReply::LinkTarget(Err(err))) => {
                self.fail(err);
            },
            (_, CopyReply::Done(Err(err))) => {
                self.fail(err);
            },
            (stage, _) => {
                self.stage = stage;
            },
        }
    }

    /// How the copy ended.
    pub fn result(self) -> (result: Option<Result<(), IoError>>)
        ensures
            match self@.stage {
                CopyStage::Finished(Ok(_)) => result == Some(Ok::<(), IoError>(())),
                CopyStage::Finished(Err(CopyFault::Io(err))) => result == Some(
                    Err::<(), IoError>(err),
                ),
                CopyStage::Finished(Err(CopyFault::NoSymlinks)) => result matches Some(Err(err))
                    && says_no_symlinks(err),
                CopyStage::Finished(Err(CopyFault::Unsupported { path })) => {
                    &&& result matches Some(Err(err))
                    &&& err.kind == ErrorKind::Unsupported
                    &&& err.os_code is None
                    &&& err.text@ == "unsupported entry type: "@ + path
                },
                _ => result is None,
            },
    {
        match self.stage {
            CopyStage::Finished(Ok(_)) => Some(Ok(())),
            CopyStage::Finished(Err(CopyFault::Io(err))) => Some(Err(err)),
            CopyStage::Finished(Err(CopyFault::NoSymlinks)) => Some(Err(no_symlinks())),
            CopyStage::Finished(Err(CopyFault::Unsupported { path })) => {
                let text = "unsupported entry type: ".to_owned().concat(path.as_str());
                Some(Err(IoError::new(ErrorKind::Unsupported, text)))
            },
            _ => None,
        }
    }
}

/// Copies a directory with everything in it.
pub fn copy_dir_recursive(platform: Platform, source: String, destination: String) -> (copy:
    CopyTree)
    ensures
        copy@ == Copying::fresh(platform, source@, destination@),
        copy@.valid(),
{
    let copy = CopyTree {
        platform,
        destinations: Vec::new(),
        stage: CopyStage::Creating { source, destination },
    };
    assert(copy@.levels =~= seq![]);
    copy
}

// ---------------------------------------------------------------------------
// Whole copies

/// What the file system has in store for one entry of a listing.
pub enum Found {
    /// The entry cannot be read from the listing.
    Unlisted { error: IoError },
    Listed { path: String, name: String, entry: Entry },
}

/// What the file system has in store for an entry that is looked at.
pub enum Entry {
    Unseen { error: IoError },
    /// How copying it would go, whatever it is.
    Seen {
        metadata: FileMeta,
        copying: Result<(), IoError>,
        target: Result<String, IoError>,
        leads_to_dir: bool,
        linking: Result<(), IoError>,
        dir: Dir,
    },
}

/// What the file system has in store for a directory that is copied.
pub struct Dir {
    pub creating: Result<(), IoError>,
    pub opening: Result<(), IoError>,
    pub entries: Seq<Found>,
}

/// How a step of a copy ended.
pub open spec fn step_result(result: Result<(), IoError>) -> Result<(), CopyFault<Seq<char>>> {
    match result {
        Ok(_) => Ok(()),
        Err(err) => Err(CopyFault::Io(err)),
    }
}

/// The first failure in the copying of a directory.
pub open spec fn dir_result(platform: Platform, dir: Dir) -> Result<(), CopyFault<Seq<char>>>
    decreases dir,
{
    if dir.creating is Err {
        step_result(dir.creating)
    } else if dir.opening is Err {
        step_result(dir.opening)
    } else {
        entries_result(platform, dir.entries)
    }
}

/// The first failure among `entries`, in the order of the listing.
pub open spec fn entries_result(platform: Platform, entries: Seq<Found>) -> Result<
    (),
    CopyFault<Seq<char>>,
>
    decreases entries,
{
    if entries.len() == 0 {
        Ok(())
    } else {
        match found_result(platform, entries[0]) {
            Err(fault) => Err(fault),
            Ok(_) => entries_result(platform, entries.drop_first()),
        }
    }
}

pub open spec fn found_result(platform: Platform, found: Found) -> Result<
    (),
    CopyFault<Seq<char>>,
>
    decreases found,
{
    match found {
        Found::Unlisted { error } => Err(CopyFault::Io(error)),
        Found::Listed { path, entry, .. } => entry_result(platform, path@, entry),
    }
}

/// The first failure at an entry or below it.
pub open spec fn entry_result(platform: Platform, source: Seq<char>, entry: Entry) -> Result<
    (),
    CopyFault<Seq<char>>,
>
    decreases entry,
{
    match entry {
        Entry::Unseen { error } => Err(CopyFault::Io(error)),
        Entry::Seen { metadata, copying, target, leads_to_dir, linking, dir } => {
            if metadata.is_dir {
                dir_result(platform, dir)
            } else if metadata.is_file {
                step_result(copying)
            } else if metadata.is_symlink {
                match target {
                    Err(err) => Err(CopyFault::Io(err)),
                    Ok(_) => match symlink_call(platform, linked_kind(leads_to_dir)) {
                        None => Err(CopyFault::NoSymlinks),
                        Some(_) => step_result(linking),
                    },
                }
            } else {
                Err(CopyFault::Unsupported { path: source })
            }
        },
    }
}

/// What is done to copy a directory, up to the first failure: the copy is
/// created, and every entry goes to the same name in it.
pub open spec fn dir_requests(
    platform: Platform,
    source: Seq<char>,
    destination: Seq<char>,
    dir: Dir,
) -> Seq<CopyRequest<Seq<char>>>
    decreases dir,
{
    let created = seq![CopyRequest::CreateDirAll { path: destination }];
    let opened = if dir.creating is Err {
        seq![]
    } else {
        seq![CopyRequest::ReadDir { path: source }]
    };
    let inside = if dir.creating is Err || dir.opening is Err {
        seq![]
    } else {
        entries_requests(platform, destination, dir.entries)
    };
    created + opened + inside
}

/// What is done to copy `entries` into the directory `destination`.
pub open spec fn entries_requests(
    platform: Platform,
    destination: Seq<char>,
    entries: Seq<Found>,
) -> Seq<CopyRequest<Seq<char>>>
    decreases entries,
{
    if entries.len() == 0 {
        seq![CopyRequest::NextEntry]
    } else {
        let first = seq![CopyRequest::NextEntry] + found_requests(platform, destination, entries[0]);
        if found_result(platform, entries[0]) is Err {
            first
        } else {
            first + entries_requests(platform, destination, entries.drop_first())
        }
    }
}

pub open spec fn found_requests(platform: Platform, destination: Seq<char>, found: Found) -> Seq<
    CopyRequest<Seq<char>>,
>
    decreases found,
{
    match found {
        Found::Unlisted { .. } => seq![],
        Found::Listed { path, name, entry } => entry_requests(
            platform,
            path@,
            joined_path(platform, destination, name@),
            entry,
        ),
    }
}

/// What is done to copy an entry: a directory with all that is in it, a file
/// with its content, a link with its target.
pub open spec fn entry_requests(
    platform: Platform,
    source: Seq<char>,
    destination: Seq<char>,
    entry: Entry,
) -> Seq<CopyRequest<Seq<char>>>
    decreases entry,
{
    let looked = seq![CopyRequest::SymlinkMetadata { path: source }];
    match entry {
        Entry::Unseen { .. } => looked,
        Entry::Seen { metadata, target, leads_to_dir, dir, .. } => {
            if metadata.is_dir {
                looked + dir_requests(platform, source, destination, dir)
            } else if metadata.is_file {
                looked + seq![CopyRequest::CopyFile { from: source, to: destination }]
            } else if metadata.is_symlink {
                looked + seq![CopyRequest::ReadLink { path: source }] + (match target {
                    Err(_) => seq![],
                    Ok(target) => link_requests(
                        platform,
                        source,
                        target@,
                        destination,
                        leads_to_dir,
                    ),
                })
            } else {
                looked
            }
        },
    }
}

/// What is done to copy a link whose target is known.
pub open spec fn link_requests(
    platform: Platform,
    source: Seq<char>,
    target: Seq<char>,
    destination: Seq<char>,
    leads_to_dir: bool,
) -> Seq<CopyRequest<Seq<char>>> {
    let followed = seq![
        CopyRequest::IsDir { path: link_destination(platform, source, target) },
    ];
    match symlink_call(platform, linked_kind(leads_to_dir)) {
        None => followed,
        Some(call) => followed.push(
            CopyRequest::Symlink(Symlink { call, target, link: destination }),
        ),
    }
}

/// The replies in the course of copying a directory, up to the first failure.
pub open spec fn dir_replies(platform: Platform, dir: Dir) -> Seq<CopyReply>
    decreases dir,
{
    let created = seq![CopyReply::Done(dir.creating)];
    let opened = if dir.creating is Err {
        seq![]
    } else {
        seq![CopyReply::Done(dir.opening)]
    };
    let inside = if dir.creating is Err || dir.opening is Err {
        seq![]
    } else {
        entries_replies(platform, dir.entries)
    };
    created + opened + inside
}

pub open spec fn entries_replies(platform: Platform, entries: Seq<Found>) -> Seq<CopyReply>
    decreases entries,
{
    if entries.len() == 0 {
        seq![CopyReply::Entry(None)]
    } else {
        let first = found_replies(platform, entries[0]);
        if found_result(platform, entries[0]) is Err {
            first
        } else {
            first + entries_replies(platform, entries.drop_first())
        }
    }
}

pub open spec fn found_replies(platform: Platform, found: Found) -> Seq<CopyReply>
    decreases found,
{
    match found {
        Found::Unlisted { error } => seq![CopyReply::Entry(Some(Err(error)))],
        Found::Listed { path, name, entry } => seq![
            CopyReply::Entry(Some(Ok(DirEntry { path, name }))),
        ] + entry_replies(platform, entry),
    }
}

pub open spec fn entry_replies(platform: Platform, entry: Entry) -> Seq<CopyReply>
    decreases entry,
{
    match entry {
        Entry::Unseen { error } => seq![CopyReply::Metadata(Err(error))],
        Entry::Seen { metadata, copying, target, leads_to_dir, linking, dir } => {
            let looked = seq![CopyReply::Metadata(Ok(metadata))];
            if metadata.is_dir {
                looked + dir_replies(platform, dir)
            } else if metadata.is_file {
                looked + seq![CopyReply::Done(copying)]
            } else if metadata.is_symlink {
                looked + seq![CopyReply::LinkTarget(target)] + (if target is Err {
                    seq![]
                } else if symlink_call(platform, linked_kind(leads_to_dir)) is None {
                    seq![CopyReply::IsDir(leads_to_dir)]
                } else {
                    seq![CopyReply::IsDir(leads_to_dir), CopyReply::Done(linking)]
                })
            } else {
                looked
            }
        },
    }
}

impl Copying {
    /// The copy after all of `replies`.
    pub open spec fn run(self, replies: Seq<CopyReply>) -> Copying
        decreases replies.len(),
    {
        if replies.len() == 0 {
            self
        } else {
            self.after(replies[0]).run(replies.drop_first())
        }
    }

    /// Each of `replies` answers what is asked for when it comes.
    pub open spec fn accepts(self, replies: Seq<CopyReply>) -> bool
        decreases replies.len(),
    {
        replies.len() > 0 ==> self.awaits(replies[0]) && self.after(replies[0]).accepts(
            replies.drop_first(),
        )
    }

    /// What is asked for, one after the other, where `replies` come back.
    pub open spec fn requests(self, replies: Seq<CopyReply>) -> Seq<CopyRequest<Seq<char>>>
        decreases replies.len(),
    {
        if replies.len() == 0 {
            seq![]
        } else {
            seq![self.asks()->0] + self.after(replies[0]).requests(replies.drop_first())
        }
    }

    /// The copy at the end of an entry that came to `result`.
    pub open spec fn ended(self, result: Result<(), CopyFault<Seq<char>>>) -> CopyStage<Seq<char>> {
        match result {
            Ok(_) => self.up().stage,
            Err(fault) => CopyStage::Finished(Err(fault)),
        }
    }

    /// Whether `replies` are taken, `requests` are made for them, and the copy
    /// is then past an entry that came to `result`.
    pub open spec fn goes(
        self,
        outer: Copying,
        replies: Seq<CopyReply>,
        requests: Seq<CopyRequest<Seq<char>>>,
        result: Result<(), CopyFault<Seq<char>>>,
    ) -> bool {
        let end = self.run(replies);
        &&& self.accepts(replies)
        &&& self.requests(replies) == requests
        &&& end.stage == outer.ended(result)
        &&& result is Ok ==> end.platform == outer.platform && end.levels == outer.levels
    }
}

proof fn lemma_copy_in_parts(copy: Copying, first: Seq<CopyReply>, second: Seq<CopyReply>)
    ensures
        copy.run(first + second) == copy.run(first).run(second),
        copy.accepts(first) && copy.run(first).accepts(second) ==> copy.accepts(first + second),
        copy.requests(first + second) == copy.requests(first) + copy.run(first).requests(second),
    decreases first.len(),
{
    if first.len() == 0 {
        assert(first + second =~= second);
        assert(copy.requests(first) + copy.requests(second) =~= copy.requests(second));
    } else {
        assert((first + second).drop_first() =~= first.drop_first() + second);
        lemma_copy_in_parts(copy.after(first[0]), first.drop_first(), second);
        assert(copy.requests(first + second) =~= copy.requests(first) + copy.run(first).requests(
            second,
        ));
    }
}

proof fn lemma_one_copy_reply(copy: Copying, reply: CopyReply)
    ensures
        copy.run(seq![reply]) == copy.after(reply),
        copy.accepts(seq![reply]) == copy.awaits(reply),
        copy.requests(seq![reply]) == seq![copy.asks()->0],
{
    reveal_with_fuel(Copying::run, 2);
    reveal_with_fuel(Copying::accepts, 2);
    reveal_with_fuel(Copying::requests, 2);
    assert(seq![reply].drop_first() =~= seq![]);
    assert(copy.requests(seq![reply]) =~= seq![copy.asks()->0]);
}

proof fn lemma_dir(copy: Copying, source: Seq<char>, destination: Seq<char>, dir: Dir)
    requires
        copy.stage == (CopyStage::Creating { source, destination }),
    ensures
        copy.goes(
            copy,
            dir_replies(copy.platform, dir),
            dir_requests(copy.platform, source, destination, dir),
            dir_result(copy.platform, dir),
        ),
    decreases dir,
{
    let creating = CopyReply::Done(dir.creating);
    lemma_one_copy_reply(copy, creating);
    if dir.creating is Ok {
        let opening = CopyReply::Done(dir.opening);
        let created = copy.after(creating);
        lemma_one_copy_reply(created, opening);
        lemma_copy_in_parts(copy, seq![creating], seq![opening]);
        let so_far = seq![creating] + seq![opening];
        if dir.opening is Ok {
            let opened = created.after(opening);
            lemma_entries(opened, dir.entries);
            assert(opened.levels.drop_last() =~= copy.levels);
            lemma_copy_in_parts(copy, so_far, entries_replies(copy.platform, dir.entries));
        } else {
            assert(so_far + seq![] =~= so_far);
            assert(dir_replies(copy.platform, dir) =~= so_far);
            assert(dir_requests(copy.platform, source, destination, dir) =~= copy.requests(so_far));
        }
    } else {
        assert(dir_replies(copy.platform, dir) =~= seq![creating]);
        assert(dir_requests(copy.platform, source, destination, dir) =~= seq![copy.asks()->0]);
    }
}

proof fn lemma_entries(copy: Copying, entries: Seq<Found>)
    requires
        copy.stage is Listing,
        copy.levels.len() > 0,
    ensures
        copy.goes(
            Copying { levels: copy.levels.drop_last(), ..copy },
            entries_replies(copy.platform, entries),
            entries_requests(copy.platform, copy.levels.last(), entries),
            entries_result(copy.platform, entries),
        ),
    decreases entries,
{
    let platform = copy.platform;
    let destination = copy.levels.last();
    if entries.len() == 0 {
        lemma_one_copy_reply(copy, CopyReply::Entry(None));
    } else {
        let found = entries[0];
        match found {
            Found::Unlisted { error } => {
                let listed = CopyReply::Entry(Some(Err(error)));
                lemma_one_copy_reply(copy, listed);
                assert(found_result(platform, found) is Err);
                assert(found_replies(platform, found) == seq![listed]);
                assert(seq![CopyRequest::<Seq<char>>::NextEntry] + found_requests(
                    platform,
                    destination,
                    found,
                ) =~= seq![copy.asks()->0]);
            },
            Found::Listed { path, name, entry } => {
                let listed = CopyReply::Entry(Some(Ok(DirEntry { path, name })));
                let inner = joined_path(platform, destination, name@);
                lemma_one_copy_reply(copy, listed);
                let looking = copy.after(listed);
                assert(decreases_to!(entries => found));
                assert(decreases_to!(found => entry));
                lemma_entry(looking, path@, inner, entry);
                lemma_copy_in_parts(copy, seq![listed], entry_replies(platform, entry));
                let first = found_replies(platform, found);
                assert(found_result(platform, found) == entry_result(platform, path@, entry));
                assert(copy.requests(first) == seq![CopyRequest::<Seq<char>>::NextEntry]
                    + found_requests(platform, destination, found));
                if found_result(platform, found) is Ok {
                    let next = copy.run(first);
                    lemma_entries(next, entries.drop_first());
                    lemma_copy_in_parts(
                        copy,
                        first,
                        entries_replies(platform, entries.drop_first()),
                    );
                }
            },
        }
    }
}

proof fn lemma_entry(copy: Copying, source: Seq<char>, destination: Seq<char>, entry: Entry)
    requires
        copy.stage == (CopyStage::Inspecting { source, destination }),
        copy.levels.len() > 0,
    ensures
        copy.goes(
            copy,
            entry_replies(copy.platform, entry),
            entry_requests(copy.platform, source, destination, entry),
            entry_result(copy.platform, source, entry),
        ),
    decreases entry,
{
    let platform = copy.platform;
    match entry {
        Entry::Unseen { error } => {
            lemma_one_copy_reply(copy, CopyReply::Metadata(Err(error)));
        },
        Entry::Seen { metadata, copying, target, leads_to_dir, linking, dir } => {
            let looked = CopyReply::Metadata(Ok(metadata));
            lemma_one_copy_reply(copy, looked);
            let seen = copy.after(looked);
            if metadata.is_dir {
                lemma_dir(seen, source, destination, dir);
                lemma_copy_in_parts(copy, seq![looked], dir_replies(platform, dir));
            } else if metadata.is_file {
                lemma_one_copy_reply(seen, CopyReply::Done(copying));
                lemma_copy_in_parts(copy, seq![looked], seq![CopyReply::Done(copying)]);
            } else if metadata.is_symlink {
                let read = CopyReply::LinkTarget(target);
                lemma_one_copy_reply(seen, read);
                lemma_copy_in_parts(copy, seq![looked], seq![read]);
                let so_far = seq![looked] + seq![read];
                if target is Err {
                    assert(so_far + seq![] =~= so_far);
                    assert(copy.requests(so_far) + seq![] =~= copy.requests(so_far));
                } else {
                    let reached = seen.after(read);
                    let followed = CopyReply::IsDir(leads_to_dir);
                    lemma_one_copy_reply(reached, followed);
                    lemma_copy_in_parts(copy, so_far, seq![followed]);
                    if symlink_call(platform, linked_kind(leads_to_dir)) is Some {
                        let linked = CopyReply::Done(linking);
                        lemma_one_copy_reply(reached.after(followed), linked);
                        lemma_copy_in_parts(reached, seq![followed], seq![linked]);
                        lemma_copy_in_parts(copy, so_far, seq![followed, linked]);
                        assert(seq![followed] + seq![linked] =~= seq![followed, linked]);
                        assert(reached.requests(seq![followed, linked]) =~= link_requests(
                            platform,
                            source,
                            target->Ok_0@,
                            destination,
                            leads_to_dir,
                        ));
                    }
                }
            }
        },
    }
}

/// A copy goes through the whole directory, in the order of the listings, and
/// puts every entry at the same place below the destination: directories are
/// created, files are copied, links are made again with their own targets. The
/// first failure ends it, and it succeeds where there is none.
pub proof fn law_copy_reproduces_the_directory(
    platform: Platform,
    source: Seq<char>,
    destination: Seq<char>,
    dir: Dir,
)
    ensures
        ({
            let copy = Copying::fresh(platform, source, destination);
            let replies = dir_replies(platform, dir);
            &&& copy.accepts(replies)
            &&& copy.requests(replies) == dir_requests(platform, source, destination, dir)
            &&& copy.run(replies).stage == CopyStage::Finished(dir_result(platform, dir))
        }),
{
    let copy = Copying::fresh(platform, source, destination);
    lemma_dir(copy, source, destination, dir);
    if dir_result(platform, dir) is Ok {
        assert(dir_result(platform, dir)->Ok_0 == ());
    }
}

// ---------------------------------------------------------------------------
// Single steps

/// A directory is copied by creating its copy and going through it; each of its
/// entries goes to the same name in the copy.
pub proof fn law_entries_go_to_the_same_name(
    copy: Copying,
    source: Seq<char>,
    destination: Seq<char>,
    entry: DirEntry,
)
    ensures
        copy.stage == (CopyStage::Creating { source, destination }) ==> {
            let created = copy.after(CopyReply::Done(Ok(())));
            &&& copy.asks() == Some(CopyRequest::CreateDirAll { path: destination })
            &&& created == (Copying { stage: created.stage, ..copy })
            &&& created.asks() == Some(CopyRequest::ReadDir { path: source })
            &&& created.after(CopyReply::Done(Ok(()))) == (Copying {
                levels: copy.levels.push(destination),
                stage: CopyStage::Listing,
                ..copy
            })
        },
        copy.stage is Listing && copy.levels.len() > 0 ==> {
            let next = copy.after(CopyReply::Entry(Some(Ok(entry))));
            &&& copy.asks() == Some(CopyRequest::<Seq<char>>::NextEntry)
            &&& next == (Copying {
                stage: CopyStage::Inspecting {
                    source: entry.path@,
                    destination: joined_path(copy.platform, copy.levels.last(), entry.name@),
                },
                ..copy
            })
            &&& next.asks() == Some(CopyRequest::SymlinkMetadata { path: entry.path@ })
            &&& copy.after(CopyReply::Entry(None)) == (Copying {
                levels: copy.levels.drop_last(),
                stage: if copy.levels.len() > 1 {
                    CopyStage::Listing
                } else {
                    CopyStage::Finished(Ok(()))
                },
                ..copy
            })
        },
{
}

/// A directory is copied with what is in it, a file by its content and a link by
/// its target; anything else ends the copy.
pub proof fn law_entries_are_copied_as_what_they_are(
    copy: Copying,
    source: Seq<char>,
    destination: Seq<char>,
    metadata: FileMeta,
)
    requires
        copy.stage == (CopyStage::Inspecting { source, destination }),
    ensures
        ({
            let seen = copy.after(CopyReply::Metadata(Ok(metadata)));
            &&& seen == (Copying { stage: seen.stage, ..copy })
            &&& metadata.is_dir ==> seen.stage == (CopyStage::Creating { source, destination })
                && seen.asks() == Some(CopyRequest::CreateDirAll { path: destination })
            &&& !metadata.is_dir && metadata.is_file ==> seen.asks() == Some(
                CopyRequest::CopyFile { from: source, to: destination },
            )
            &&& !metadata.is_dir && !metadata.is_file && metadata.is_symlink ==> seen.stage == (
            CopyStage::ReadingLink { source, destination }) && seen.asks() == Some(
                CopyRequest::ReadLink { path: source },
            )
            &&& !metadata.is_dir && !metadata.is_file && !metadata.is_symlink ==> seen.stage
                == CopyStage::Finished(Err(CopyFault::Unsupported { path: source }))
        }),
{
}

/// A copied link holds the same target as the link, at the place of the copy. On
/// Windows it is a link to a directory exactly if the link leads to one; there are
/// no links on platforms other than Windows and Unix.
pub proof fn law_copied_links_hold_the_same_target(
    copy: Copying,
    source: Seq<char>,
    destination: Seq<char>,
    target: String,
    is_dir: bool,
)
    requires
        copy.stage == (CopyStage::ReadingLink { source, destination }),
    ensures
        ({
            let read = copy.after(CopyReply::LinkTarget(Ok(target)));
            let made = read.after(CopyReply::IsDir(is_dir));
            &&& read.asks() == Some(
                CopyRequest::IsDir { path: link_destination(copy.platform, source, target@) },
            )
            &&& copy.platform is Windows ==> made.asks() == Some(
                CopyRequest::Symlink(
                    Symlink {
                        call: if is_dir {
                            SymlinkCall::WindowsDir
                        } else {
                            SymlinkCall::WindowsFile
                        },
                        target: target@,
                        link: destination,
                    },
                ),
            )
            &&& copy.platform is Unix ==> made.asks() == Some(
                CopyRequest::Symlink(
                    Symlink { call: SymlinkCall::Unix, target: target@, link: destination },
                ),
            )
            &&& copy.platform is Other ==> made.stage == CopyStage::Finished(
                Err(CopyFault::<Seq<char>>::NoSymlinks),
            )
            &&& made == (Copying { stage: made.stage, ..copy })
        }),
{
}

/// A file or link that is copied is followed by the next entry of the directory
/// that is open.
pub proof fn law_copy_goes_on_with_the_next_entry(copy: Copying)
    requires
        copy.stage is Copying || copy.stage is Linking,
        copy.levels.len() > 0,
    ensures
        copy.after(CopyReply::Done(Ok(()))) == (Copying { stage: CopyStage::Listing, ..copy }),
{
}

/// Whatever fails ends the copy with that failure.
pub proof fn law_failure_ends_the_copy(copy: Copying, err: IoError)
    ensures
        ({
            let end = CopyStage::<Seq<char>>::Finished(Err(CopyFault::Io(err)));
            &&& copy.stage is Creating || copy.stage is Opening || copy.stage is Copying
                || copy.stage is Linking ==> copy.after(CopyReply::Done(Err(err))).stage == end
            &&& copy.stage is Listing ==> copy.after(CopyReply::Entry(Some(Err(err)))).stage == end
            &&& copy.stage is Inspecting ==> copy.after(CopyReply::Metadata(Err(err))).stage == end
            &&& copy.stage is ReadingLink ==> copy.after(CopyReply::LinkTarget(Err(err))).stage
                == end
        }),
{
}

/// A copy begins with the creation of its destination.
pub proof fn law_copy_begins_with_its_destination(
    platform: Platform,
    source: Seq<char>,
    destination: Seq<char>,
)
    ensures
        ({
            let copy = Copying::fresh(platform, source, destination);
            &&& copy.stage == (CopyStage::Creating { source, destination })
            &&& copy.platform == platform
            &&& copy.levels.len() == 0
        }),
{
}

/// What a copy asks for is seen with its own paths, each in its place.
pub proof fn law_copy_requests_are_seen_as_they_are(
    a: String,
    b: String,
    symlink: Symlink<String>,
    err: IoError,
)
    ensures
        (CopyRequest::CreateDirAll { path: a })@ == (CopyRequest::CreateDirAll { path: a@ }),
        (CopyRequest::ReadDir { path: a })@ == (CopyRequest::ReadDir { path: a@ }),
        (CopyRequest::SymlinkMetadata { path: a })@ == (CopyRequest::SymlinkMetadata { path: a@ }),
        (CopyRequest::CopyFile { from: a, to: b })@ == (CopyRequest::CopyFile { from: a@, to: b@ }),
        (CopyRequest::ReadLink { path: a })@ == (CopyRequest::ReadLink { path: a@ }),
        (CopyRequest::IsDir { path: a })@ == (CopyRequest::IsDir { path: a@ }),
        CopyRequest::Symlink(symlink)@ == CopyRequest::Symlink(
            Symlink { call: symlink.call, target: symlink.target@, link: symlink.link@ },
        ),
        CopyRequest::<String>::NextEntry@ == CopyRequest::<Seq<char>>::NextEntry,
        (CopyStage::Creating { source: a, destination: b })@ == (CopyStage::Creating {
            source: a@,
            destination: b@,
        }),
        CopyStage::<String>::Finished(Ok(()))@ == CopyStage::<Seq<char>>::Finished(Ok(())),
        CopyStage::<String>::Finished(Err(CopyFault::Io(err)))@
            == CopyStage::<Seq<char>>::Finished(Err(CopyFault::Io(err))),
        CopyStage::Finished(Err(CopyFault::Unsupported { path: a }))@ == CopyStage::Finished(
            Err(CopyFault::Unsupported { path: a@ }),
        ),
        CopyStage::<String>::Finished(Err(CopyFault::NoSymlinks))@
            == CopyStage::<Seq<char>>::Finished(Err(CopyFault::NoSymlinks)),
{
}

} // verus!
