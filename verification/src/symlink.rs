//! Symbolic links: how they are made on each platform, and where they lead.
use crate::fault::{ErrorKind, IoError};
use crate::path::{absolute, is_absolute, join, joined_path, parent, parent_of};
use crate::platform::Platform;
use crate::transfer::SourceKind;
use vstd::prelude::*;

verus! {

/// The system call that makes a link.
#[derive(Debug, Clone, Copy, PartialEq, Eq, Structural)]
pub enum SymlinkCall {
    /// The call of Windows for links to files.
    WindowsFile,
    /// The call of Windows for links to directories.
    WindowsDir,
    /// The one call of Unix.
    Unix,
}

/// A link to be made: at `link`, holding `target`.
#[derive(Debug)]
pub struct Symlink<P> {
    pub call: SymlinkCall,
    pub target: P,
    pub link: P,
}

impl View for Symlink<String> {
    type V = Symlink<Seq<char>>;

    open spec fn view(&self) -> Symlink<Seq<char>> {
        Symlink { call: self.call, target: self.target@, link: self.link@ }
    }
}

/// Which call makes a link of a kind, where there is one.
pub open spec fn symlink_call(platform: Platform, kind: SourceKind) -> Option<SymlinkCall> {
    match (platform, kind) {
        (Platform::Windows, SourceKind::File) => Some(SymlinkCall::WindowsFile),
        (Platform::Windows, SourceKind::Directory) => Some(SymlinkCall::WindowsDir),
        (Platform::Unix, _) => Some(SymlinkCall::Unix),
        (Platform::Other, _) => None,
    }
}

/// Whether `err` says that there are no links on the platform.
pub open spec fn says_no_symlinks(err: IoError) -> bool {
    &&& err.kind == ErrorKind::Unsupported
    &&& err.os_code is None
    &&& err.text@ == "symbolic links are not supported on this platform"@
}

/// Whether `made` is the link of `kind`, or says that there are no links.
pub open spec fn links_as(
    platform: Platform,
    kind: SourceKind,
    target: String,
    link: String,
    made: Result<Symlink<String>, IoError>,
) -> bool {
    match symlink_call(platform, kind) {
        Some(call) => made == Ok::<Symlink<String>, IoError>(Symlink { call, target, link }),
        None => made matches Err(err) && says_no_symlinks(err),
    }
}

/// The error where there are no links.
pub fn no_symlinks() -> (err: IoError)
    ensures
        says_no_symlinks(err),
{
    IoError::new(
        ErrorKind::Unsupported,
        "symbolic links are not supported on this platform".to_owned(),
    )
}

/// A link to a file.
pub fn create_file_symlink(platform: Platform, target: String, link: String) -> (made: Result<
    Symlink<String>,
    IoError,
>)
    ensures
        links_as(platform, SourceKind::File, target, link, made),
{
    match platform {
        Platform::Windows => Ok(Symlink { call: SymlinkCall::WindowsFile, target, link }),
        Platform::Unix => Ok(Symlink { call: SymlinkCall::Unix, target, link }),
        Platform::Other => Err(no_symlinks()),
    }
}

/// A link to a directory.
pub fn create_dir_symlink(platform: Platform, target: String, link: String) -> (made: Result<
    Symlink<String>,
    IoError,
>)
    ensures
        links_as(platform, SourceKind::Directory, target, link, made),
{
    match platform {
        Platform::Windows => Ok(Symlink { call: SymlinkCall::WindowsDir, target, link }),
        Platform::Unix => Ok(Symlink { call: SymlinkCall::Unix, target, link }),
        Platform::Other => Err(no_symlinks()),
    }
}

/// A link to an entry of a kind.
pub fn create_symlink_for_kind(
    platform: Platform,
    kind: SourceKind,
    target: String,
    link: String,
) -> (made: Result<Symlink<String>, IoError>)
    ensures
        links_as(platform, kind, target, link, made),
{
    match kind {
        SourceKind::File => create_file_symlink(platform, target, link),
        SourceKind::Directory => create_dir_symlink(platform, target, link),
    }
}

/// Where a link at `source` leads that holds `target`: a relative target is
/// taken from the directory of the link.
pub open spec fn link_destination(
    platform: Platform,
    source: Seq<char>,
    target: Seq<char>,
) -> Seq<char> {
    if absolute(platform, target) {
        target
    } else {
        match parent_of(platform, source) {
            Some(dir) => joined_path(platform, dir, target),
            None => target,
        }
    }
}

/// Where a link at `source` leads that holds `target`.
pub fn resolve_link(platform: Platform, source: &str, target: &str) -> (resolved: String)
    ensures
        resolved@ == link_destination(platform, source@, target@),
{
    if is_absolute(platform, target) {
        target.to_owned()
    } else {
        match parent(platform, source) {
            Some(dir) => join(platform, dir.as_str(), target),
            None => target.to_owned(),
        }
    }
}

/// The kind of a link that leads to a directory, or not.
pub open spec fn linked_kind(leads_to_dir: bool) -> SourceKind {
    if leads_to_dir {
        SourceKind::Directory
    } else {
        SourceKind::File
    }
}

/// A link at `link` that holds the same `target` as another, which leads to a
/// directory or not.
pub fn create_symlink_like_source(
    platform: Platform,
    leads_to_dir: bool,
    target: String,
    link: String,
) -> (made: Result<Symlink<String>, IoError>)
    ensures
        links_as(platform, linked_kind(leads_to_dir), target, link, made),
{
    let kind = if leads_to_dir {
        SourceKind::Directory
    } else {
        SourceKind::File
    };
    create_symlink_for_kind(platform, kind, target, link)
}

/// On Windows a link to a directory and a link to anything else are made by
/// different calls; Unix has one call for both, and other platforms have none.
pub proof fn law_links_are_made_by_their_kind(
    platform: Platform,
    leads_to_dir: bool,
    target: String,
    link: String,
    made: Result<Symlink<String>, IoError>,
)
    requires
        links_as(platform, linked_kind(leads_to_dir), target, link, made),
    ensures
        platform is Windows && leads_to_dir ==> made == Ok::<Symlink<String>, IoError>(
            Symlink { call: SymlinkCall::WindowsDir, target, link },
        ),
        platform is Windows && !leads_to_dir ==> made == Ok::<Symlink<String>, IoError>(
            Symlink { call: SymlinkCall::WindowsFile, target, link },
        ),
        platform is Unix ==> made == Ok::<Symlink<String>, IoError>(
            Symlink { call: SymlinkCall::Unix, target, link },
        ),
        platform is Other ==> (made matches Err(err) && err.kind is Unsupported && err.text@
            == "symbolic links are not supported on this platform"@),
        linked_kind(leads_to_dir) is Directory <==> leads_to_dir,
{
}

/// The kind of an entry decides the call in the same way.
pub proof fn law_kinds_have_their_calls(platform: Platform, kind: SourceKind)
    ensures
        symlink_call(platform, kind) is None <==> platform is Other,
        platform is Unix ==> symlink_call(platform, kind) == Some(SymlinkCall::Unix),
        platform is Windows ==> symlink_call(platform, kind) == Some(
            if kind is Directory {
                SymlinkCall::WindowsDir
            } else {
                SymlinkCall::WindowsFile
            },
        ),
{
}

/// An absolute target is where the link leads; any other is taken from the
/// directory that the link is in, as far as there is one.
pub proof fn law_relative_targets_start_at_the_link(
    platform: Platform,
    source: Seq<char>,
    target: Seq<char>,
)
    ensures
        absolute(platform, target) || parent_of(platform, source) is None ==> link_destination(
            platform,
            source,
            target,
        ) == target,
        !absolute(platform, target) ==> (parent_of(platform, source) matches Some(dir)
            ==> link_destination(platform, source, target) == joined_path(platform, dir, target)),
{
}

} // verus!
