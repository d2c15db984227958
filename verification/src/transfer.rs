//! Moving one entry to another place, across volumes where need be.
use crate::fault::IoError;
use vstd::prelude::*;

verus! {

/// What is moved, and so by which calls.
#[derive(Debug, Clone, Copy, PartialEq, Eq, Structural)]
pub enum SourceKind {
    File,
    Directory,
}

/// What a kind is called.
pub open spec fn kind_name(kind: SourceKind) -> Seq<char> {
    match kind {
        SourceKind::File => "file"@,
        SourceKind::Directory => "directory"@,
    }
}

/// What a kind is called.
pub fn kind_label(kind: SourceKind) -> (label: &'static str)
    ensures
        label@ == kind_name(kind),
{
    match kind {
        SourceKind::File => "file",
        SourceKind::Directory => "directory",
    }
}

/// The two places lie on different volumes, so a rename cannot lead from one to
/// the other.
pub open spec fn crosses_devices(err: IoError) -> bool {
    err.os_code == Some(17i32)
}

/// Whether a rename failed because the places lie on different volumes.
pub fn is_cross_device_error(err: &IoError) -> (yes: bool)
    ensures
        yes == crosses_devices(*err),
{
    match err.raw_os_error() {
        Some(code) => code == 17,
        None => false,
    }
}

/// Where a move stands.
#[derive(Debug)]
pub enum MoveStage {
    /// The entry is being renamed.
    Renaming,
    /// The destination is on another volume: the entry is being copied there.
    Copying,
    /// The copy is done: the source is being removed.
    Removing,
    Finished(Result<(), IoError>),
}

/// The moving of one entry.
#[derive(Debug)]
pub struct MovePath {
    pub source: String,
    pub destination: String,
    pub kind: SourceKind,
    pub stage: MoveStage,
}

/// What a move asks for.
#[derive(Debug)]
pub enum MoveRequest {
    Rename { from: String, to: String },
    CopyFile { from: String, to: String },
    /// A copy of the directory with everything in it.
    CopyTree { from: String, to: String },
    RemoveFile { path: String },
    RemoveDirAll { path: String },
}

impl MovePath {
    /// What is asked for next.
    pub open spec fn asks(self) -> Option<MoveRequest> {
        match (self.stage, self.kind) {
            (MoveStage::Renaming, _) => Some(
                MoveRequest::Rename { from: self.source, to: self.destination },
            ),
            (MoveStage::Copying, SourceKind::File) => Some(
                MoveRequest::CopyFile { from: self.source, to: self.destination },
            ),
            (MoveStage::Copying, SourceKind::Directory) => Some(
                MoveRequest::CopyTree { from: self.source, to: self.destination },
            ),
            (MoveStage::Removing, SourceKind::File) => Some(
                MoveRequest::RemoveFile { path: self.source },
            ),
            (MoveStage::Removing, SourceKind::Directory) => Some(
                MoveRequest::RemoveDirAll { path: self.source },
            ),
            (MoveStage::Finished(_), _) => None,
        }
    }

    /// The move once what it asked for has ended with `reply`.
    pub open spec fn after(self, reply: Result<(), IoError>) -> MovePath {
        let stage = match (self.stage, reply) {
            (MoveStage::Renaming, Err(err)) if crosses_devices(err) => MoveStage::Copying,
            (MoveStage::Renaming, _) => MoveStage::Finished(reply),
            (MoveStage::Copying, Ok(_)) => MoveStage::Removing,
            (MoveStage::Copying, Err(err)) => MoveStage::Finished(Err(err)),
            (MoveStage::Removing, _) => MoveStage::Finished(reply),
            (MoveStage::Finished(end), _) => MoveStage::Finished(end),
        };
        MovePath { stage, ..self }
    }

    /// What is to be done next; nothing once the move is finished.
    pub fn request(&self) -> (request: Option<MoveRequest>)
        ensures
            request == self.asks(),
    {
        match (&self.stage, self.kind) {
            (MoveStage::Renaming, _) => Some(
                MoveRequest::Rename { from: self.source.clone(), to: self.destination.clone() },
            ),
            (MoveStage::Copying, SourceKind::File) => Some(
                MoveRequest::CopyFile { from: self.source.clone(), to: self.destination.clone() },
            ),
            (MoveStage::Copying, SourceKind::Directory) => Some(
                MoveRequest::CopyTree { from: self.source.clone(), to: self.destination.clone() },
            ),
            (MoveStage::Removing, SourceKind::File) => Some(
                MoveRequest::RemoveFile { path: self.source.clone() },
            ),
            (MoveStage::Removing, SourceKind::Directory) => Some(
                MoveRequest::RemoveDirAll { path: self.source.clone() },
            ),
            (MoveStage::Finished(_), _) => None,
        }
    }

    /// Goes on with how the last request ended.
    pub fn resume(self, reply: Result<(), IoError>) -> (moving: MovePath)
        ensures
            moving == self.after(reply),
    {
        let MovePath { source, destination, kind, stage } = self;
        let stage = match (stage, reply) {
            (MoveStage::Renaming, Err(err)) => if is_cross_device_error(&err) {
                MoveStage::Copying
            } else {
                MoveStage::Finished(Err(err))
            },
            (MoveStage::Renaming, Ok(done)) => MoveStage::Finished(Ok(done)),
            (MoveStage::Copying, Ok(_)) => MoveStage::Removing,
            (MoveStage::Copying, Err(err)) => MoveStage::Finished(Err(err)),
            (MoveStage::Removing, end) => MoveStage::Finished(end),
            (MoveStage::Finished(end), _) => MoveStage::Finished(end),
        };
        MovePath { source, destination, kind, stage }
    }

    /// How the move ended.
    pub fn result(self) -> (result: Option<Result<(), IoError>>)
        ensures
            match self.stage {
                MoveStage::Finished(end) => result == Some(end),
                _ => result is None,
            },
    {
        match self.stage {
            MoveStage::Finished(result) => Some(result),
            _ => None,
        }
    }
}

/// Moves a file.
pub fn move_file_with_fallback(source: String, destination: String) -> (moving: MovePath)
    ensures
        moving == (MovePath {
            source,
            destination,
            kind: SourceKind::File,
            stage: MoveStage::Renaming,
        }),
{
    MovePath { source, destination, kind: SourceKind::File, stage: MoveStage::Renaming }
}

/// Moves a directory.
pub fn move_directory_with_fallback(source: String, destination: String) -> (moving: MovePath)
    ensures
        moving == (MovePath {
            source,
            destination,
            kind: SourceKind::Directory,
            stage: MoveStage::Renaming,
        }),
{
    MovePath { source, destination, kind: SourceKind::Directory, stage: MoveStage::Renaming }
}

/// Moves an entry of a kind.
pub fn move_path_with_fallback(source: String, destination: String, kind: SourceKind) -> (moving:
    MovePath)
    ensures
        moving == (MovePath { source, destination, kind, stage: MoveStage::Renaming }),
{
    match kind {
        SourceKind::File => move_file_with_fallback(source, destination),
        SourceKind::Directory => move_directory_with_fallback(source, destination),
    }
}

/// A move is a rename. Only where the volumes differ is the entry copied, and
/// only once the whole copy is there is the source removed.
pub proof fn law_move_keeps_the_source_until_copied(
    moving: MovePath,
    renaming: Result<(), IoError>,
    copying: Result<(), IoError>,
    removing: Result<(), IoError>,
)
    requires
        moving.stage is Renaming,
    ensures
        ({
            let renamed = moving.after(renaming);
            let copied = renamed.after(copying);
            if renaming is Err && crosses_devices(renaming->Err_0) {
                &&& renamed.asks() == Some(
                    match moving.kind {
                        SourceKind::File => MoveRequest::CopyFile {
                            from: moving.source,
                            to: moving.destination,
                        },
                        SourceKind::Directory => MoveRequest::CopyTree {
                            from: moving.source,
                            to: moving.destination,
                        },
                    },
                )
                &&& copying is Err ==> copied.stage == MoveStage::Finished(copying)
                &&& copying is Ok ==> {
                    &&& copied.asks() == Some(
                        match moving.kind {
                            SourceKind::File => MoveRequest::RemoveFile { path: moving.source },
                            SourceKind::Directory => MoveRequest::RemoveDirAll {
                                path: moving.source,
                            },
                        },
                    )
                    &&& copied.after(removing).stage == MoveStage::Finished(removing)
                }
            } else {
                renamed.stage == MoveStage::Finished(renaming)
            }
        }),
{
}

/// An entry is renamed first. It is copied exactly if the rename failed because
/// the places are on different volumes (17), a file as a file and a directory with
/// everything in it, and the source is then removed in the same manner. Every other
/// failure ends the move and leaves the source where it is.
pub proof fn law_move_copies_across_volumes(
    source: String,
    destination: String,
    kind: SourceKind,
    renaming: IoError,
    copying: IoError,
)
    ensures
        ({
            let moving = MovePath { source, destination, kind, stage: MoveStage::Renaming };
            let other_volume = renaming.os_code matches Some(code) && code == 17;
            let failed = moving.after(Err(renaming));
            let copied = failed.after(Ok(()));
            &&& moving.asks() == Some(MoveRequest::Rename { from: source, to: destination })
            &&& moving.after(Ok(())).stage == MoveStage::Finished(Ok(()))
            &&& !other_volume ==> failed.stage == MoveStage::Finished(Err(renaming))
            &&& other_volume ==> {
                &&& failed.asks() == Some(
                    if kind is Directory {
                        MoveRequest::CopyTree { from: source, to: destination }
                    } else {
                        MoveRequest::CopyFile { from: source, to: destination }
                    },
                )
                &&& failed.after(Err(copying)).stage == MoveStage::Finished(Err(copying))
                &&& copied.asks() == Some(
                    if kind is Directory {
                        MoveRequest::RemoveDirAll { path: source }
                    } else {
                        MoveRequest::RemoveFile { path: source }
                    },
                )
                &&& copied.after(Ok(())).stage == MoveStage::Finished(Ok(()))
                &&& copied.after(Err(copying)).stage == MoveStage::Finished(Err(copying))
            }
        }),
        kind_name(kind) == (if kind is Directory {
            "directory"@
        } else {
            "file"@
        }),
{
}

} // verus!
