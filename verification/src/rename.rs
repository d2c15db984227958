//! Moving entries with the commands of Windows.
pub use crate::link::build_destination_path;

use crate::batch::{
    failed_in, goes_through, law_batch_tries_every_source,
    law_failures_are_those_of_the_failed_moves, move_summary, move_summary_text, Batch, BatchStage,
    MoveOutcome, MoveRun,
};
use crate::cli::Cli;
use crate::fault::{CommandOutput, ErrorKind, ErrorReport, FileMeta, IoError};
use crate::path::{file_name_of, joined_path, same_parts, same_path};
use crate::platform::Platform;
use crate::text::{
    chars_of, decimal, decimal_text, from_utf8_lossy, join_texts, joined, signed_decimal,
    signed_decimal_text, texts, trim, trimmed, truncate_for_log, truncated, utf8_lossy,
};
use vstd::prelude::*;

verus! {

/// How much of what a command printed goes into an error.
pub const MAX_COMMAND_OUTPUT_CHARS: usize = 220;

/// How many threads `robocopy` takes at most.
pub const MAX_ROBOCOPY_MT: usize = 128;

/// An entry that could not be moved.
#[derive(Debug)]
pub struct MoveFailureEntry {
    pub source: String,
    pub destination: Option<String>,
    pub backend: &'static str,
    pub command: String,
    pub exit_code: Option<i32>,
    pub error: String,
}

/// An entry that was moved, or would be.
#[derive(Debug)]
pub struct MoveSuccess {
    pub destination: String,
    pub backend: MoveBackend,
    pub command: String,
}

/// The command that moves an entry.
#[derive(Debug, Clone, Copy, PartialEq, Eq, Structural)]
pub enum MoveBackend {
    CmdMove,
    RoboCopy,
    Unknown,
}

/// What a backend is called.
pub open spec fn backend_name(backend: MoveBackend) -> Seq<char> {
    match backend {
        MoveBackend::CmdMove => "cmd-move"@,
        MoveBackend::RoboCopy => "robocopy"@,
        MoveBackend::Unknown => "unknown"@,
    }
}

impl MoveBackend {
    /// What the backend is called.
    pub fn label(self) -> (label: &'static str)
        ensures
            label@ == backend_name(self),
    {
        match self {
            MoveBackend::CmdMove => "cmd-move",
            MoveBackend::RoboCopy => "robocopy",
            MoveBackend::Unknown => "unknown",
        }
    }
}

/// Starts the moving of `sources` into the directory given, or into the one that
/// the config file names. It needs Windows.
pub fn run_move(
    platform: Platform,
    cli: &Cli,
    sources: Vec<String>,
    target_dir: Option<String>,
    mt: Option<usize>,
) -> (run: Result<MoveRun<MoveFailureEntry>, ErrorReport>)
    ensures
        if platform != Platform::Windows {
            run matches Err(report) && report.cause is None && report.message@
                == "`move` command is only supported on Windows"@
        } else if mt matches Some(count) && count > MAX_ROBOCOPY_MT {
            run matches Err(report) && report.cause is None && report.message@
                == "--mt must be between 1 and 128 for robocopy"@
        } else {
            MoveRun::started(run, *cli, sources, target_dir)
        },
{
    if platform != Platform::Windows {
        return Err(
            ErrorReport::plain("`move` command is only supported on Windows".to_owned()),
        );
    }
    if let Some(count) = mt {
        if count > MAX_ROBOCOPY_MT {
            return Err(
                ErrorReport::plain("--mt must be between 1 and 128 for robocopy".to_owned()),
            );
        }
    }
    MoveRun::start(cli, sources, target_dir)
}

/// Whether `robocopy` ended well with this code.
pub fn is_robocopy_success(code: i32) -> (yes: bool)
    ensures
        yes == (code < 8),
{
    code < 8
}

// ---------------------------------------------------------------------------
// Command lines

/// A text with a backslash before each quote.
pub open spec fn escaped(s: Seq<char>) -> Seq<char>
    decreases s.len(),
{
    if s.len() == 0 {
        seq![]
    } else if s.last() == '"' {
        escaped(s.drop_last()).push('\\').push('"')
    } else {
        escaped(s.drop_last()).push(s.last())
    }
}

/// Whether an argument is shown in quotes.
pub open spec fn needs_quotes(arg: Seq<char>) -> bool {
    arg.contains(' ') || arg.contains('\t') || arg.contains('"')
}

/// An argument as it is shown.
pub open spec fn quoted(arg: Seq<char>) -> Seq<char> {
    if arg.len() == 0 {
        seq!['"', '"']
    } else if needs_quotes(arg) {
        seq!['"'] + escaped(arg) + seq!['"']
    } else {
        arg
    }
}

/// Shows an argument.
pub fn quote_arg(arg: &str) -> (out: String)
    ensures
        out@ == quoted(arg@),
{
    let chars = chars_of(arg);
    let mut out = String::new();
    if chars.len() == 0 {
        out.push('"');
        out.push('"');
        assert(out@ =~= seq!['"', '"']);
        return out;
    }
    let mut quotes = false;
    let mut i: usize = 0;
    while i < chars.len()
        invariant
            i <= chars.len(),
            chars@ == arg@,
            quotes == exists|j: int|
                0 <= j < i && (#[trigger] arg@[j] == ' ' || arg@[j] == '\t' || arg@[j] == '"'),
        decreases chars.len() - i,
    {
        let c = chars[i];
        assert(c == arg@[i as int]);
        if c == ' ' || c == '\t' || c == '"' {
            quotes = true;
        }
        i += 1;
    }
    if !quotes {
        return arg.to_owned();
    }
    out.push('"');
    let ghost start = out@;
    i = 0;
    assert(arg@.take(0) =~= seq![]);
    assert(start + seq![] =~= start);
    while i < chars.len()
        invariant
            i <= chars.len(),
            chars@ == arg@,
            out@ == start + escaped(arg@.take(i as int)),
        decreases chars.len() - i,
    {
        let c = chars[i];
        let ghost before = escaped(arg@.take(i as int));
        assert(arg@.take(i as int + 1).drop_last() =~= arg@.take(i as int));
        assert(arg@.take(i as int + 1).last() == c);
        if c == '"' {
            out.push('\\');
            out.push('"');
            assert(out@ =~= start + before.push('\\').push('"'));
        } else {
            out.push(c);
            assert(out@ =~= start + before.push(c));
        }
        i += 1;
    }
    assert(arg@.take(i as int) =~= arg@);
    out.push('"');
    assert(start =~= seq!['"']);
    assert(out@ =~= seq!['"'] + escaped(arg@) + seq!['"']);
    out
}

/// A command as it is shown.
pub open spec fn command_line(program: Seq<char>, args: Seq<Seq<char>>) -> Seq<char> {
    joined(
        seq![program] + Seq::new(args.len(), |i: int| quoted(args[i])),
        seq![' '],
    )
}

/// Shows a command.
pub fn format_command(program: &str, args: &Vec<String>) -> (line: String)
    ensures
        line@ == command_line(program@, texts(args@)),
{
    let mut parts: Vec<String> = Vec::new();
    parts.push(program.to_owned());
    let mut i: usize = 0;
    while i < args.len()
        invariant
            i <= args.len(),
            parts@.len() == i + 1,
            parts@[0]@ == program@,
            forall|j: int| 0 <= j < i ==> #[trigger] parts@[j + 1]@ == quoted(args@[j]@),
        decreases args.len() - i,
    {
        parts.push(quote_arg(args[i].as_str()));
        i += 1;
    }
    proof {
        reveal_strlit(" ");
        let list = texts(args@);
        let shown = seq![program@] + Seq::new(list.len(), |i: int| quoted(list[i]));
        assert forall|j: int| 0 <= j < shown.len() implies texts(parts@)[j] == shown[j] by {
            if j > 0 {
                assert(parts@[(j - 1) + 1]@ == quoted(args@[j - 1]@));
            }
        }
        assert(texts(parts@) =~= shown);
        assert(" "@ =~= seq![' ']);
    }
    join_texts(&parts, " ")
}

/// A command to run.
#[derive(Debug)]
pub struct MoveCommand {
    pub program: &'static str,
    pub args: Vec<String>,
}

/// The backend for an entry: `robocopy` for directories, `move` for the rest.
pub open spec fn backend_for(directory: bool) -> MoveBackend {
    if directory {
        MoveBackend::RoboCopy
    } else {
        MoveBackend::CmdMove
    }
}

/// The program that moves an entry.
pub open spec fn move_program(directory: bool) -> Seq<char> {
    if directory {
        "robocopy"@
    } else {
        "cmd"@
    }
}

/// The arguments with which a file is moved.
pub open spec fn cmd_args(source: Seq<char>, destination: Seq<char>) -> Seq<Seq<char>> {
    seq!["/C"@, "move"@, "/Y"@, source, destination]
}

/// The arguments with which a directory is moved, by `mt` threads if so wished.
pub open spec fn robocopy_args(
    source: Seq<char>,
    destination: Seq<char>,
    mt: Option<usize>,
) -> Seq<Seq<char>> {
    let args = seq![
        source,
        destination,
        "/E"@,
        "/MOVE"@,
        "/R:1"@,
        "/W:1"@,
        "/NFL"@,
        "/NDL"@,
        "/NJH"@,
        "/NJS"@,
        "/NP"@,
    ];
    match mt {
        Some(count) => args.push("/MT:"@ + decimal(count as nat)),
        None => args,
    }
}

/// The arguments with which an entry is moved.
pub open spec fn move_args(
    directory: bool,
    source: Seq<char>,
    destination: Seq<char>,
    mt: Option<usize>,
) -> Seq<Seq<char>> {
    if directory {
        robocopy_args(source, destination, mt)
    } else {
        cmd_args(source, destination)
    }
}

/// The command that moves a file.
pub fn run_cmd_move(source: &String, destination: &String) -> (command: MoveCommand)
    ensures
        command.program@ == "cmd"@,
        texts(command.args@) == cmd_args(source@, destination@),
{
    let mut args: Vec<String> = Vec::new();
    args.push("/C".to_owned());
    args.push("move".to_owned());
    args.push("/Y".to_owned());
    args.push(source.clone());
    args.push(destination.clone());
    assert(texts(args@) =~= cmd_args(source@, destination@));
    MoveCommand { program: "cmd", args }
}

/// The command that moves a directory.
pub fn run_robocopy_move(source: &String, destination: &String, mt: Option<usize>) -> (command:
    MoveCommand)
    ensures
        command.program@ == "robocopy"@,
        texts(command.args@) == robocopy_args(source@, destination@, mt),
{
    let mut args: Vec<String> = Vec::new();
    args.push(source.clone());
    args.push(destination.clone());
    args.push("/E".to_owned());
    args.push("/MOVE".to_owned());
    args.push("/R:1".to_owned());
    args.push("/W:1".to_owned());
    args.push("/NFL".to_owned());
    args.push("/NDL".to_owned());
    args.push("/NJH".to_owned());
    args.push("/NJS".to_owned());
    args.push("/NP".to_owned());
    if let Some(count) = mt {
        let threads = decimal_text(count as u64);
        args.push("/MT:".to_owned().concat(threads.as_str()));
    }
    assert(texts(args@) =~= robocopy_args(source@, destination@, mt));
    MoveCommand { program: "robocopy", args }
}

// ---------------------------------------------------------------------------
// What a command said

/// What is said of a command that failed: what it printed as an error, else what
/// it printed at all, else its exit code.
pub open spec fn error_text(stderr: Seq<char>, stdout: Seq<char>, code: Option<i32>) -> Seq<char> {
    let limit = MAX_COMMAND_OUTPUT_CHARS as int;
    if trimmed(stderr).len() > 0 {
        truncated(trimmed(stderr), limit)
    } else if trimmed(stdout).len() > 0 {
        truncated(trimmed(stdout), limit)
    } else {
        match code {
            Some(code) => "command exited with code "@ + signed_decimal(code as int),
            None => "command terminated without exit code"@,
        }
    }
}

/// What is said of a command that printed `stderr` and `stdout` and ended with
/// `code`.
pub fn printed_error_text(stderr: &str, stdout: &str, code: Option<i32>) -> (out: String)
    ensures
        out@ == error_text(stderr@, stdout@, code),
{
    let said = trim(stderr);
    if !said.as_str().is_empty() {
        return truncate_for_log(said.as_str(), MAX_COMMAND_OUTPUT_CHARS);
    }
    let shown = trim(stdout);
    if !shown.as_str().is_empty() {
        return truncate_for_log(shown.as_str(), MAX_COMMAND_OUTPUT_CHARS);
    }
    match code {
        Some(code) => {
            let number = signed_decimal_text(code);
            "command exited with code ".to_owned().concat(number.as_str())
        },
        None => "command terminated without exit code".to_owned(),
    }
}

/// What is said of a command that failed.
pub fn command_error_text(output: &CommandOutput) -> (out: String)
    ensures
        out@ == error_text(utf8_lossy(output.stderr@), utf8_lossy(output.stdout@), output.code),
{
    let stderr = from_utf8_lossy(output.stderr.as_slice());
    let stdout = from_utf8_lossy(output.stdout.as_slice());
    printed_error_text(stderr.as_str(), stdout.as_str(), output.code)
}

// ---------------------------------------------------------------------------
// The move of one entry

/// Why an entry was not moved.
#[derive(Debug)]
pub enum MoveFault {
    /// The source cannot be looked at.
    Metadata(IoError),
    NoFileName { directory: bool },
    SamePath { directory: bool },
    DestinationExists { directory: bool },
    /// The command did not start.
    Spawn { directory: bool, error: IoError },
    /// The command failed.
    Failed { directory: bool, output: CommandOutput },
}

/// Where the move of an entry stands.
#[derive(Debug)]
pub enum MoveOneStage {
    /// The source is being looked at.
    Inspecting,
    /// Whether the destination is taken is being found out.
    Checking { directory: bool },
    /// The command is running.
    Running { directory: bool },
    /// The directory is moved: what is left of the source is being removed.
    CleaningUp,
    /// Moved by the backend for directories, or not; or the failure.
    Finished(Result<bool, MoveFault>),
}

/// The move of one entry by a command.
#[derive(Debug)]
pub struct MoveOne {
    pub source: String,
    /// Where the entry goes, if it has a name.
    pub destination: Option<String>,
    /// Whether source and destination are the same path.
    pub same: bool,
    pub mt: Option<usize>,
    pub dry_run: bool,
    pub stage: MoveOneStage,
}

/// What the move of an entry asks for.
#[derive(Debug)]
pub enum MoveOneRequest {
    /// What the path is, without following a link.
    SymlinkMetadata { path: String },
    /// Whether the path leads to something.
    Exists { path: String },
    /// The command run to its end.
    Run(MoveCommand),
    /// The empty directory removed.
    RemoveDir { path: String },
}

/// The answer to a request of a move.
#[derive(Debug)]
pub enum MoveOneReply {
    Metadata(Result<FileMeta, IoError>),
    Exists(bool),
    Output(Result<CommandOutput, IoError>),
    Removed(Result<(), IoError>),
}

/// Whether a command did what it was to do. The exit code of `robocopy` is not
/// zero where it moved something.
pub open spec fn went_through(directory: bool, output: CommandOutput) -> bool {
    if directory {
        output.code matches Some(code) && code < 8
    } else {
        output.success
    }
}

impl MoveFault {
    /// The backend of the move that failed.
    pub open spec fn backend(self) -> MoveBackend {
        match self {
            MoveFault::Metadata(_) => MoveBackend::Unknown,
            MoveFault::NoFileName { directory } => backend_for(directory),
            MoveFault::SamePath { directory } => backend_for(directory),
            MoveFault::DestinationExists { directory } => backend_for(directory),
            MoveFault::Spawn { directory, .. } => backend_for(directory),
            MoveFault::Failed { directory, .. } => backend_for(directory),
        }
    }

    /// The code that comes with the failure.
    pub open spec fn exit_code(self) -> Option<i32> {
        match self {
            MoveFault::Metadata(err) => err.os_code,
            MoveFault::Spawn { error, .. } => error.os_code,
            MoveFault::Failed { output, .. } => output.code,
            _ => None,
        }
    }

    /// Whether a command was at work.
    pub open spec fn ran(self) -> bool {
        self is Spawn || self is Failed
    }
}

impl MoveOne {
    /// Whether the entry is on its way into `target_dir`.
    pub open spec fn heads_for(self, target_dir: Seq<char>) -> bool {
        match file_name_of(Platform::Windows, self.source@) {
            Some(name) => {
                &&& self.destination matches Some(path)
                &&& path@ == joined_path(Platform::Windows, target_dir, name)
                &&& self.same == same_parts(Platform::Windows, self.source@, path@)
            },
            None => self.destination is None && !self.same,
        }
    }

    /// Nothing is moved without a destination, or onto itself.
    pub open spec fn valid(self) -> bool {
        match self.stage {
            MoveOneStage::Inspecting => true,
            MoveOneStage::Finished(Ok(_)) => self.destination is Some && !self.same,
            MoveOneStage::Finished(Err(fault)) => fault is Metadata || (fault is NoFileName
                <==> self.destination is None),
            _ => self.destination is Some && !self.same,
        }
    }

    /// Whether `request` is what is asked for next.
    pub open spec fn asks(self, request: Option<MoveOneRequest>) -> bool {
        match self.stage {
            MoveOneStage::Inspecting => request == Some(
                MoveOneRequest::SymlinkMetadata { path: self.source },
            ),
            MoveOneStage::Checking { .. } => request == Some(
                MoveOneRequest::Exists { path: self.destination->0 },
            ),
            MoveOneStage::Running { directory } => {
                &&& request matches Some(MoveOneRequest::Run(command))
                &&& command.program@ == move_program(directory)
                &&& texts(command.args@) == move_args(
                    directory,
                    self.source@,
                    self.destination->0@,
                    self.mt,
                )
            },
            MoveOneStage::CleaningUp => request == Some(
                MoveOneRequest::RemoveDir { path: self.source },
            ),
            MoveOneStage::Finished(_) => request is None,
        }
    }

    /// Whether `reply` answers what is asked for.
    pub open spec fn awaits(self, reply: MoveOneReply) -> bool {
        match self.stage {
            MoveOneStage::Inspecting => reply is Metadata,
            MoveOneStage::Checking { .. } => reply is Exists,
            MoveOneStage::Running { .. } => reply is Output,
            MoveOneStage::CleaningUp => reply is Removed,
            MoveOneStage::Finished(_) => false,
        }
    }

    pub open spec fn at(self, stage: MoveOneStage) -> MoveOne {
        MoveOne { stage, ..self }
    }

    pub open spec fn failed(self, fault: MoveFault) -> MoveOne {
        self.at(MoveOneStage::Finished(Err(fault)))
    }

    /// The move once `reply` has come in.
    pub open spec fn after(self, reply: MoveOneReply) -> MoveOne {
        match (self.stage, reply) {
            (MoveOneStage::Inspecting, MoveOneReply::Metadata(Err(err))) => self.failed(
                MoveFault::Metadata(err),
            ),
            (MoveOneStage::Inspecting, MoveOneReply::Metadata(Ok(metadata))) => {
                let directory = metadata.is_dir;
                if self.destination is None {
                    self.failed(MoveFault::NoFileName { directory })
                } else if self.same {
                    self.failed(MoveFault::SamePath { directory })
                } else {
                    self.at(MoveOneStage::Checking { directory })
                }
            },
            (MoveOneStage::Checking { directory }, MoveOneReply::Exists(taken)) => {
                if taken {
                    self.failed(MoveFault::DestinationExists { directory })
                } else if self.dry_run {
                    self.at(MoveOneStage::Finished(Ok(directory)))
                } else {
                    self.at(MoveOneStage::Running { directory })
                }
            },
            (MoveOneStage::Running { directory }, MoveOneReply::Output(Err(error))) => self.failed(
                MoveFault::Spawn { directory, error },
            ),
            (MoveOneStage::Running { directory }, MoveOneReply::Output(Ok(output))) => {
                if !went_through(directory, output) {
                    self.failed(MoveFault::Failed { directory, output })
                } else if directory {
                    self.at(MoveOneStage::CleaningUp)
                } else {
                    self.at(MoveOneStage::Finished(Ok(directory)))
                }
            },
            (MoveOneStage::CleaningUp, MoveOneReply::Removed(_)) => self.at(
                MoveOneStage::Finished(Ok(true)),
            ),
            _ => self,
        }
    }

    /// The command that moves the entry, as it is shown.
    pub open spec fn shown_command(self, directory: bool) -> Seq<char> {
        command_line(
            move_program(directory),
            move_args(directory, self.source@, self.destination->0@, self.mt),
        )
    }

    /// Whether `entry` reports a failure.
    pub open spec fn reports(self, fault: MoveFault, entry: MoveFailureEntry) -> bool {
        &&& entry.source == self.source
        &&& entry.destination == (if fault is Metadata {
            None
        } else {
            self.destination
        })
        &&& entry.backend@ == backend_name(fault.backend())
        &&& entry.command@ == if fault.ran() {
            self.shown_command(fault.backend() == MoveBackend::RoboCopy)
        } else {
            "<unavailable>"@
        }
        &&& entry.exit_code == fault.exit_code()
        &&& entry.error@ == match fault {
            MoveFault::Metadata(err) => "failed to read source metadata: "@ + err.text@,
            MoveFault::NoFileName { .. } => "source path has no file name: "@ + self.source@,
            MoveFault::SamePath { .. } => "source and destination are the same path"@,
            MoveFault::DestinationExists {
                ..
            } => "destination already exists, refusing to overwrite"@,
            MoveFault::Spawn { directory, error } => (if directory {
                "failed to spawn robocopy: "@
            } else {
                "failed to spawn cmd move: "@
            }) + error.text@,
            MoveFault::Failed { output, .. } => error_text(
                utf8_lossy(output.stderr@),
                utf8_lossy(output.stdout@),
                output.code,
            ),
        }
    }

    fn command(&self, directory: bool) -> (command: MoveCommand)
        requires
            self.destination is Some,
        ensures
            command.program@ == move_program(directory),
            texts(command.args@) == move_args(
                directory,
                self.source@,
                self.destination->0@,
                self.mt,
            ),
    {
        let destination = match &self.destination {
            Some(path) => path.clone(),
            None => String::new(),
        };
        if directory {
            run_robocopy_move(&self.source, &destination, self.mt)
        } else {
            run_cmd_move(&self.source, &destination)
        }
    }

    fn command_text(&self, directory: bool) -> (line: String)
        requires
            self.destination is Some,
        ensures
            line@ == self.shown_command(directory),
    {
        let command = self.command(directory);
        format_command(command.program, &command.args)
    }

    /// What is to be done next; nothing once the move is finished.
    pub fn request(&self) -> (request: Option<MoveOneRequest>)
        requires
            self.valid(),
        ensures
            self.asks(request),
    {
        match &self.stage {
            MoveOneStage::Inspecting => Some(
                MoveOneRequest::SymlinkMetadata { path: self.source.clone() },
            ),
            MoveOneStage::Checking { .. } => match &self.destination {
                Some(path) => Some(MoveOneRequest::Exists { path: path.clone() }),
                None => None,
            },
            MoveOneStage::Running { directory } => Some(
                MoveOneRequest::Run(self.command(*directory)),
            ),
            MoveOneStage::CleaningUp => Some(
                MoveOneRequest::RemoveDir { path: self.source.clone() },
            ),
            MoveOneStage::Finished(_) => None,
        }
    }

    /// Goes on with the answer to the last request.
    pub fn resume(&mut self, reply: MoveOneReply)
        requires
            old(self).valid(),
            old(self).awaits(reply),
        ensures
            *final(self) == old(self).after(reply),
            final(self).valid(),
    {
        let mut stage = MoveOneStage::Inspecting;
        std::mem::swap(&mut stage, &mut self.stage);
        self.stage = match (stage, reply) {
            (MoveOneStage::Inspecting, MoveOneReply::Metadata(Err(err))) => MoveOneStage::Finished(
                Err(MoveFault::Metadata(err)),
            ),
            (MoveOneStage::Inspecting, MoveOneReply::Metadata(Ok(metadata))) => {
                let directory = metadata.is_dir;
                if self.destination.is_none() {
                    MoveOneStage::Finished(Err(MoveFault::NoFileName { directory }))
                } else if self.same {
                    MoveOneStage::Finished(Err(MoveFault::SamePath { directory }))
                } else {
                    MoveOneStage::Checking { directory }
                }
            },
            (MoveOneStage::Checking { directory }, MoveOneReply::Exists(taken)) => {
                if taken {
                    MoveOneStage::Finished(Err(MoveFault::DestinationExists { directory }))
                } else if self.dry_run {
                    MoveOneStage::Finished(Ok(directory))
                } else {
                    MoveOneStage::Running { directory }
                }
            },
            (
                MoveOneStage::Running { directory },
                MoveOneReply::Output(Err(error)),
            ) => MoveOneStage::Finished(Err(MoveFault::Spawn { directory, error })),
            (MoveOneStage::Running { directory }, MoveOneReply::Output(Ok(output))) => {
                let moved = if directory {
                    match output.code {
                        Some(code) => is_robocopy_success(code),
                        None => false,
                    }
                } else {
                    output.success
                };
                if !moved {
                    MoveOneStage::Finished(Err(MoveFault::Failed { directory, output }))
                } else if directory {
                    MoveOneStage::CleaningUp
                } else {
                    MoveOneStage::Finished(Ok(directory))
                }
            },
            (MoveOneStage::CleaningUp, MoveOneReply::Removed(_)) => MoveOneStage::Finished(
                Ok(true),
            ),
            (stage, _) => stage,
        };
    }

    fn report(&self, fault: &MoveFault) -> (entry: MoveFailureEntry)
        requires
            self.valid(),
            self.stage is Finished,
            self.stage->Finished_0 == Err::<bool, MoveFault>(*fault),
        ensures
            self.reports(*fault, entry),
    {
        let source = self.source.clone();
        let destination = match &self.destination {
            Some(path) => Some(path.clone()),
            None => None,
        };
        let unavailable = "<unavailable>".to_owned();
        match fault {
            MoveFault::Metadata(err) => MoveFailureEntry {
                source,
                destination: None,
                backend: MoveBackend::Unknown.label(),
                command: unavailable,
                exit_code: err.raw_os_error(),
                error: "failed to read source metadata: ".to_owned().concat(err.text.as_str()),
            },
            MoveFault::NoFileName { directory } => MoveFailureEntry {
                error: "source path has no file name: ".to_owned().concat(source.as_str()),
                source,
                destination,
                backend: backend_of(*directory).label(),
                command: unavailable,
                exit_code: None,
            },
            MoveFault::SamePath { directory } => MoveFailureEntry {
                source,
                destination,
                backend: backend_of(*directory).label(),
                command: unavailable,
                exit_code: None,
                error: "source and destination are the same path".to_owned(),
            },
            MoveFault::DestinationExists { directory } => MoveFailureEntry {
                source,
                destination,
                backend: backend_of(*directory).label(),
                command: unavailable,
                exit_code: None,
                error: "destination already exists, refusing to overwrite".to_owned(),
            },
            MoveFault::Spawn { directory, error } => {
                let what = if *directory {
                    "failed to spawn robocopy: "
                } else {
                    "failed to spawn cmd move: "
                };
                MoveFailureEntry {
                    source,
                    destination,
                    backend: backend_of(*directory).label(),
                    command: self.command_text(*directory),
                    exit_code: error.raw_os_error(),
                    error: what.to_owned().concat(error.text.as_str()),
                }
            },
            MoveFault::Failed { directory, output } => MoveFailureEntry {
                source,
                destination,
                backend: backend_of(*directory).label(),
                command: self.command_text(*directory),
                exit_code: output.code,
                error: command_error_text(output),
            },
        }
    }

    /// How the entry was moved, or what is reported of it.
    pub fn result(&self) -> (result: Option<Result<MoveSuccess, MoveFailureEntry>>)
        requires
            self.valid(),
        ensures
            match self.stage {
                MoveOneStage::Finished(Ok(directory)) => {
                    &&& result matches Some(Ok(success))
                    &&& success.destination == self.destination->0
                    &&& success.backend == backend_for(directory)
                    &&& success.command@ == self.shown_command(directory)
                },
                MoveOneStage::Finished(Err(fault)) => result matches Some(Err(entry))
                    && self.reports(fault, entry),
                _ => result is None,
            },
    {
        match &self.stage {
            MoveOneStage::Finished(Ok(directory)) => match &self.destination {
                Some(path) => Some(
                    Ok(
                        MoveSuccess {
                            destination: path.clone(),
                            backend: backend_of(*directory),
                            command: self.command_text(*directory),
                        },
                    ),
                ),
                None => None,
            },
            MoveOneStage::Finished(Err(fault)) => Some(Err(self.report(fault))),
            _ => None,
        }
    }
}

fn backend_of(directory: bool) -> (backend: MoveBackend)
    ensures
        backend == backend_for(directory),
{
    if directory {
        MoveBackend::RoboCopy
    } else {
        MoveBackend::CmdMove
    }
}

/// Moves the entry at `source` into `target_dir` by a command of Windows.
pub fn move_one_with_windows_commands(
    source: String,
    target_dir: &str,
    mt: Option<usize>,
    dry_run: bool,
) -> (moving: MoveOne)
    ensures
        moving.source == source,
        moving.mt == mt,
        moving.dry_run == dry_run,
        moving.stage is Inspecting,
        moving.heads_for(target_dir@),
        moving.valid(),
{
    let platform = Platform::Windows;
    let stage = MoveOneStage::Inspecting;
    match build_destination_path(platform, source.as_str(), target_dir) {
        Ok(destination) => {
            let same = same_path(platform, source.as_str(), destination.as_str());
            MoveOne { source, destination: Some(destination), same, mt, dry_run, stage }
        },
        Err(_) => MoveOne { source, destination: None, same: false, mt, dry_run, stage },
    }
}

/// Whether a directory that could not be removed after the move is worth a
/// warning: not where it was gone already.
pub fn remove_empty_source_dir(removed: &Result<(), IoError>) -> (warns: bool)
    ensures
        warns == (*removed matches Err(err) && err.kind != ErrorKind::NotFound),
{
    match removed {
        Ok(_) => false,
        Err(err) => err.kind != ErrorKind::NotFound,
    }
}

// ---------------------------------------------------------------------------
// Whole moves

impl MoveOne {
    /// The move after all of `replies`.
    pub open spec fn run(self, replies: Seq<MoveOneReply>) -> MoveOne
        decreases replies.len(),
    {
        if replies.len() == 0 {
            self
        } else {
            self.run(replies.drop_last()).after(replies.last())
        }
    }

    /// Whether the next step leaves everything as it is.
    pub open spec fn only_looks(self) -> bool {
        !(self.stage is Running || self.stage is CleaningUp)
    }
}

/// A dry run only looks, whatever it finds: no command is run and nothing is
/// removed.
pub proof fn law_dry_run_runs_nothing(moving: MoveOne, replies: Seq<MoveOneReply>)
    requires
        moving.stage is Inspecting,
        moving.dry_run,
    ensures
        moving.run(replies).only_looks(),
        moving.run(replies).dry_run,
    decreases replies.len(),
{
    if replies.len() > 0 {
        law_dry_run_runs_nothing(moving, replies.drop_last());
    }
}

/// A command runs only after the answer that the destination is free, never onto
/// the source itself, and never in a dry run.
pub proof fn law_nothing_is_overwritten(moving: MoveOne, reply: MoveOneReply)
    requires
        moving.valid(),
        moving.awaits(reply),
        moving.only_looks(),
        !moving.after(reply).only_looks(),
    ensures
        moving.asks(Some(MoveOneRequest::Exists { path: moving.destination->0 })),
        reply == MoveOneReply::Exists(false),
        !moving.same,
        !moving.dry_run,
{
}

/// A move that is not a dry run succeeds if and only if its command went
/// through; only then is the source of a directory removed, and whether that
/// works makes no difference.
pub proof fn law_success_is_up_to_the_command(
    moving: MoveOne,
    directory: bool,
    output: CommandOutput,
    removed: Result<(), IoError>,
)
    requires
        moving.valid(),
        moving.stage == (MoveOneStage::Running { directory }),
    ensures
        ({
            let ended = moving.after(MoveOneReply::Output(Ok(output)));
            if !went_through(directory, output) {
                ended.stage == MoveOneStage::Finished(Err(MoveFault::Failed { directory, output }))
            } else if directory {
                &&& ended.asks(Some(MoveOneRequest::RemoveDir { path: moving.source }))
                &&& ended.after(MoveOneReply::Removed(removed)).stage == MoveOneStage::Finished(
                    Ok(true),
                )
            } else {
                ended.stage == MoveOneStage::Finished(Ok(false))
            }
        }),
{
}

// ---------------------------------------------------------------------------
// Runs

impl MoveOne {
    /// Whether this is the move of the next source of a batch, not yet begun.
    pub open spec fn is_next_of(
        self,
        batch: Batch<MoveFailureEntry>,
        mt: Option<usize>,
    ) -> bool {
        &&& self.source == batch.sources@[batch.next as int]
        &&& self.mt == mt
        &&& self.dry_run == batch.dry_run
        &&& self.stage is Inspecting
        &&& self.heads_for(batch.target_dir@)
        &&& self.valid()
    }

    /// Whether the move ended with `result`.
    pub open spec fn settled(self, result: Result<(), MoveFailureEntry>) -> bool {
        match self.stage {
            MoveOneStage::Finished(Ok(_)) => result is Ok,
            MoveOneStage::Finished(Err(fault)) => result matches Err(entry) && self.reports(
                fault,
                entry,
            ),
            _ => false,
        }
    }

    /// What a run counts of the move, once it is finished.
    pub fn settle(&self) -> (result: Option<Result<(), MoveFailureEntry>>)
        requires
            self.valid(),
        ensures
            match result {
                Some(result) => self.settled(result),
                None => !(self.stage is Finished),
            },
    {
        match self.result() {
            None => None,
            Some(Ok(_)) => Some(Ok(())),
            Some(Err(entry)) => Some(Err(entry)),
        }
    }
}

/// The move of the next source of a batch, where one is to be moved.
pub fn next_move(batch: &Batch<MoveFailureEntry>, mt: Option<usize>) -> (moving: Option<MoveOne>)
    requires
        batch.valid(),
    ensures
        match moving {
            Some(moving) => batch.stage == BatchStage::Moving && moving.is_next_of(*batch, mt),
            None => batch.stage != BatchStage::Moving,
        },
{
    match batch.stage {
        BatchStage::Moving => {
            let source = batch.sources[batch.next].clone();
            Some(
                move_one_with_windows_commands(
                    source,
                    batch.target_dir.as_str(),
                    mt,
                    batch.dry_run,
                ),
            )
        },
        _ => None,
    }
}

proof fn lemma_same_entry(moving: MoveOne, replies: Seq<MoveOneReply>)
    ensures
        moving.run(replies).source == moving.source,
        moving.run(replies).destination == moving.destination,
        moving.run(replies).mt == moving.mt,
    decreases replies.len(),
{
    if replies.len() > 0 {
        lemma_same_entry(moving, replies.drop_last());
    }
}

/// A run whose target directory is there, or that needs none, moves every source
/// in turn, and what fails does not stop it. Its counts add up to the number of
/// sources. Its failures are, in the order of the sources, those of exactly the
/// sources whose move failed, each with what went wrong there.
pub proof fn law_run_reports_exactly_the_failed_moves(
    mt: Option<usize>,
    batch: Batch<MoveFailureEntry>,
    states: Seq<Batch<MoveFailureEntry>>,
    moves: Seq<MoveOne>,
    replies: Seq<Seq<MoveOneReply>>,
    results: Seq<Result<(), MoveFailureEntry>>,
)
    requires
        goes_through(batch, states, results),
        moves.len() == results.len(),
        replies.len() == results.len(),
        forall|i: int| 0 <= i < results.len() ==> (#[trigger] moves[i]).is_next_of(states[i], mt),
        forall|i: int|
            0 <= i < results.len() ==> (#[trigger] moves[i]).run(replies[i]).settled(results[i]),
    ensures
        ({
            let sources = batch.sources@;
            let target_dir = batch.target_dir@;
            let outcome = states.last().comes_to();
            let failed = failed_in(results);
            &&& states.last().stage == BatchStage::Finished
            &&& outcome.total == sources.len()
            &&& outcome.succeeded + outcome.failed == outcome.total
            &&& outcome.failed == outcome.failures@.len() == failed.len()
            &&& forall|i: int|
                0 <= i < sources.len() ==> {
                    &&& (#[trigger] moves[i]).source == sources[i]
                    &&& moves[i].dry_run == batch.dry_run
                    &&& moves[i].mt == mt
                    &&& moves[i].heads_for(target_dir)
                }
            &&& forall|i: int|
                0 <= i < sources.len() ==> (#[trigger] failed.contains(i) <==> (moves[i].run(
                    replies[i],
                ).stage matches MoveOneStage::Finished(Err(_))))
            &&& forall|k: int, l: int|
                0 <= k < l < failed.len() ==> #[trigger] failed[k] < #[trigger] failed[l]
            &&& forall|k: int|
                0 <= k < failed.len() ==> {
                    let i = #[trigger] failed[k];
                    let entry = outcome.failures@[k];
                    &&& 0 <= i < sources.len()
                    &&& entry.source == sources[i]
                    &&& entry.destination is Some ==> entry.destination == moves[i].destination
                    &&& moves[i].run(replies[i]).settled(Err(entry))
                }
        }),
{
    let sources = batch.sources@;
    let target_dir = batch.target_dir@;
    let outcome = states.last().comes_to();
    let failed = failed_in(results);
    law_batch_tries_every_source(batch, states, results);
    law_failures_are_those_of_the_failed_moves(results);
    assert forall|i: int| 0 <= i < sources.len() implies {
        &&& (#[trigger] moves[i]).source == sources[i]
        &&& moves[i].dry_run == batch.dry_run
        &&& moves[i].mt == mt
        &&& moves[i].heads_for(target_dir)
    } by {
        assert(moves[i].is_next_of(states[i], mt));
    }
    assert forall|i: int| 0 <= i < sources.len() implies (#[trigger] failed.contains(i) <==> (
    moves[i].run(replies[i]).stage matches MoveOneStage::Finished(Err(_)))) by {
        assert(moves[i].run(replies[i]).settled(results[i]));
    }
    assert forall|k: int| 0 <= k < failed.len() implies {
        let i = #[trigger] failed[k];
        let entry = outcome.failures@[k];
        &&& 0 <= i < sources.len()
        &&& entry.source == sources[i]
        &&& entry.destination is Some ==> entry.destination == moves[i].destination
        &&& moves[i].run(replies[i]).settled(Err(entry))
    } by {
        let i = failed[k];
        assert(moves[i].is_next_of(states[i], mt));
        assert(moves[i].run(replies[i]).settled(results[i]));
        lemma_same_entry(moves[i], replies[i]);
    }
}

// ---------------------------------------------------------------------------
// Summaries

/// One entry that was not moved, on a line of the summary.
pub open spec fn failure_line(failure: MoveFailureEntry) -> Seq<char> {
    "- source="@ + failure.source@ + " | destination="@ + (match failure.destination {
        Some(path) => path@,
        None => "unknown"@,
    }) + " | backend="@ + failure.backend@ + " | exit_code="@ + (match failure.exit_code {
        Some(code) => signed_decimal(code as int),
        None => "unknown"@,
    }) + " | command="@ + failure.command@ + " | "@ + failure.error@
}

/// What the moves came to, as the user sees it.
pub open spec fn summary(outcome: MoveOutcome<MoveFailureEntry>, dry_run: bool) -> Seq<char> {
    move_summary(
        outcome,
        dry_run,
        "move"@,
        "Move failures:"@,
        Seq::new(outcome.failures@.len(), |i: int| failure_line(outcome.failures@[i])),
    )
}

fn failure_line_text(failure: &MoveFailureEntry) -> (line: String)
    ensures
        line@ == failure_line(*failure),
{
    let destination = match &failure.destination {
        Some(path) => path.as_str(),
        None => "unknown",
    };
    let code = match failure.exit_code {
        Some(code) => signed_decimal_text(code),
        None => "unknown".to_owned(),
    };
    "- source=".to_owned().concat(failure.source.as_str()).concat(" | destination=").concat(
        destination,
    ).concat(" | backend=").concat(failure.backend).concat(" | exit_code=").concat(
        code.as_str(),
    ).concat(" | command=").concat(failure.command.as_str()).concat(" | ").concat(
        failure.error.as_str(),
    )
}

/// Writes the summary of the moves.
pub fn summary_text(outcome: &MoveOutcome<MoveFailureEntry>, dry_run: bool) -> (out: String)
    ensures
        out@ == summary(*outcome, dry_run),
{
    let mut lines: Vec<String> = Vec::new();
    let mut i: usize = 0;
    while i < outcome.failures.len()
        invariant
            i <= outcome.failures.len(),
            lines@.len() == i,
            forall|j: int| 0 <= j < i ==> #[trigger] lines@[j]@ == failure_line(
                outcome.failures@[j],
            ),
        decreases outcome.failures.len() - i,
    {
        lines.push(failure_line_text(&outcome.failures[i]));
        i += 1;
    }
    assert(texts(lines@) =~= Seq::new(
        outcome.failures@.len(),
        |i: int| failure_line(outcome.failures@[i]),
    ));
    move_summary_text(outcome, dry_run, "move", "Move failures:", &lines)
}

// ---------------------------------------------------------------------------
// Single steps

/// The move of a directory succeeds exactly if its command ended with a code below
/// eight, be it zero or not: the source directory is then removed, and whether that
/// works makes no difference. With a higher code, or with none, it has failed.
pub proof fn law_robocopy_succeeds_below_eight(
    moving: MoveOne,
    output: CommandOutput,
    removed: Result<(), IoError>,
)
    requires
        moving.stage == (MoveOneStage::Running { directory: true }),
    ensures
        ({
            let ended = moving.after(MoveOneReply::Output(Ok(output)));
            &&& ended == (MoveOne { stage: ended.stage, ..moving })
            &&& match output.code {
                Some(code) if code < 8 => {
                    &&& ended.asks(Some(MoveOneRequest::RemoveDir { path: moving.source }))
                    &&& ended.after(MoveOneReply::Removed(removed)) == (MoveOne {
                        stage: MoveOneStage::Finished(Ok(true)),
                        ..moving
                    })
                },
                _ => ended.stage == MoveOneStage::Finished(
                    Err(MoveFault::Failed { directory: true, output }),
                ),
            }
        }),
{
}

/// The move of anything else succeeds exactly if its command says so.
pub proof fn law_cmd_succeeds_if_it_says_so(moving: MoveOne, output: CommandOutput)
    requires
        moving.stage == (MoveOneStage::Running { directory: false }),
    ensures
        ({
            let ended = moving.after(MoveOneReply::Output(Ok(output)));
            &&& ended == (MoveOne { stage: ended.stage, ..moving })
            &&& ended.stage == if output.success {
                MoveOneStage::Finished(Ok(false))
            } else {
                MoveOneStage::Finished(Err(MoveFault::Failed { directory: false, output }))
            }
        }),
{
}

/// The source is looked at first. Without a name, or onto itself, it is not moved;
/// else the next question is whether its destination is taken. A taken destination
/// ends the move, and a free one is enough for a dry run.
pub proof fn law_moves_go_only_to_a_free_destination(
    moving: MoveOne,
    metadata: FileMeta,
    err: IoError,
)
    requires
        moving.stage is Inspecting,
    ensures
        moving.asks(Some(MoveOneRequest::SymlinkMetadata { path: moving.source })),
        moving.after(MoveOneReply::Metadata(Err(err))).stage == MoveOneStage::Finished(
            Err(MoveFault::Metadata(err)),
        ),
        ({
            let directory = metadata.is_dir;
            let seen = moving.after(MoveOneReply::Metadata(Ok(metadata)));
            let free = seen.after(MoveOneReply::Exists(false));
            match moving.destination {
                None => seen.stage == MoveOneStage::Finished(
                    Err(MoveFault::NoFileName { directory }),
                ),
                Some(path) => if moving.same {
                    seen.stage == MoveOneStage::Finished(Err(MoveFault::SamePath { directory }))
                } else {
                    &&& seen.asks(Some(MoveOneRequest::Exists { path }))
                    &&& seen.after(MoveOneReply::Exists(true)).stage == MoveOneStage::Finished(
                        Err(MoveFault::DestinationExists { directory }),
                    )
                    &&& free == (MoveOne {
                        stage: if moving.dry_run {
                            MoveOneStage::Finished(Ok(directory))
                        } else {
                            MoveOneStage::Running { directory }
                        },
                        ..moving
                    })
                },
            }
        }),
{
}

/// A directory is moved by `robocopy` and anything else by `move`, from the source
/// to the destination. `robocopy` gets a thread count exactly if there is one.
pub proof fn law_commands_are_complete(
    moving: MoveOne,
    directory: bool,
    destination: String,
    request: Option<MoveOneRequest>,
    err: IoError,
)
    requires
        moving.stage == (MoveOneStage::Running { directory }),
        moving.destination == Some(destination),
        moving.asks(request),
    ensures
        request matches Some(MoveOneRequest::Run(command)) && if directory {
            &&& command.program@ == "robocopy"@
            &&& command.args@.len() == (if moving.mt is Some {
                12nat
            } else {
                11
            })
            &&& texts(command.args@).take(11) == seq![
                moving.source@,
                destination@,
                "/E"@,
                "/MOVE"@,
                "/R:1"@,
                "/W:1"@,
                "/NFL"@,
                "/NDL"@,
                "/NJH"@,
                "/NJS"@,
                "/NP"@,
            ]
            &&& moving.mt matches Some(count) ==> command.args@[11]@ == "/MT:"@ + decimal(
                count as nat,
            )
        } else {
            &&& command.program@ == "cmd"@
            &&& texts(command.args@) == seq![
                "/C"@,
                "move"@,
                "/Y"@,
                moving.source@,
                destination@,
            ]
        },
        moving.after(MoveOneReply::Output(Err(err))).stage == MoveOneStage::Finished(
            Err(MoveFault::Spawn { directory, error: err }),
        ),
{
    if let Some(MoveOneRequest::Run(command)) = request {
        let shown = texts(command.args@);
        let args = robocopy_args(moving.source@, destination@, moving.mt);
        if directory {
            assert(shown == args);
            assert(shown.take(11) =~= seq![
                moving.source@,
                destination@,
                "/E"@,
                "/MOVE"@,
                "/R:1"@,
                "/W:1"@,
                "/NFL"@,
                "/NDL"@,
                "/NJH"@,
                "/NJS"@,
                "/NP"@,
            ]);
            if moving.mt is Some {
                assert(shown[11] == args[11]);
            }
        }
    }
}

/// A shown command is the program and its arguments with a space between each two.
pub proof fn law_shown_commands_are_separated_by_spaces(
    program: Seq<char>,
    args: Seq<Seq<char>>,
    arg: Seq<char>,
)
    ensures
        command_line(program, seq![]) == program,
        command_line(program, args.push(arg)) == command_line(program, args) + seq![' '] + quoted(
            arg,
        ),
{
    let shown = seq![program] + Seq::new(args.len(), |i: int| quoted(args[i]));
    let more = args.push(arg);
    assert(seq![program] + Seq::new(more.len(), |i: int| quoted(more[i])) =~= shown.push(
        quoted(arg),
    ));
    assert(shown.push(quoted(arg)).drop_last() =~= shown);
    let none = Seq::<Seq<char>>::empty();
    assert(seq![program] + Seq::new(none.len(), |i: int| quoted(none[i])) =~= seq![program]);
}

/// An argument is shown as it is, unless it is empty or holds a space, a tab or a
/// quote; then it stands between quotes.
pub proof fn law_arguments_are_quoted_where_they_need_it(arg: Seq<char>)
    ensures
        ({
            let odd = exists|i: int|
                0 <= i < arg.len() && (#[trigger] arg[i] == ' ' || arg[i] == '\t' || arg[i] == '"');
            &&& arg.len() == 0 ==> quoted(arg) == seq!['"', '"']
            &&& arg.len() > 0 && !odd ==> quoted(arg) == arg
            &&& odd ==> quoted(arg) == seq!['"'] + escaped(arg) + seq!['"']
        }),
{
    if exists|i: int|
        0 <= i < arg.len() && (#[trigger] arg[i] == ' ' || arg[i] == '\t' || arg[i] == '"') {
        let i = choose|i: int|
            0 <= i < arg.len() && (#[trigger] arg[i] == ' ' || arg[i] == '\t' || arg[i] == '"');
        assert(arg.contains(arg[i]));
    }
}

/// Between quotes each quote gets a backslash in front of it, and every other
/// character stays as it is.
pub proof fn law_escaping_goes_character_by_character(s: Seq<char>, c: char)
    ensures
        escaped(seq![]) == Seq::<char>::empty(),
        escaped(s.push(c)) == escaped(s) + (if c == '"' {
            seq!['\\', '"']
        } else {
            seq![c]
        }),
{
    assert(s.push(c).drop_last() =~= s);
    assert(escaped(s.push(c)) =~= escaped(s) + (if c == '"' {
        seq!['\\', '"']
    } else {
        seq![c]
    }));
}

/// What a failed command printed as an error is reported, else what it printed at
/// all, either without the white space around it and no longer than 220
/// characters; else its exit code, as far as it has one.
pub proof fn law_failed_command_says_what_it_printed(
    stderr: Seq<char>,
    stdout: Seq<char>,
    code: Option<i32>,
)
    ensures
        ({
            let text = error_text(stderr, stdout, code);
            let said = if trimmed(stderr).len() > 0 {
                trimmed(stderr)
            } else {
                trimmed(stdout)
            };
            &&& 0 < said.len() <= 220 ==> text == said
            &&& said.len() > 220 ==> text == said.take(220) + "..."@
            &&& said.len() == 0 ==> text == match code {
                Some(code) => "command exited with code "@ + signed_decimal(code as int),
                None => "command terminated without exit code"@,
            }
        }),
{
}

/// A report of a failed move is on its source. It has the destination, the backend
/// and the shown command as far as they are known, the code that comes with the
/// failure, and what went wrong.
pub proof fn law_failed_moves_are_reported(
    moving: MoveOne,
    destination: String,
    fault: MoveFault,
    entry: MoveFailureEntry,
)
    requires
        moving.reports(fault, entry),
        moving.destination == Some(destination) || fault is NoFileName || fault is Metadata,
    ensures
        entry.source == moving.source,
        fault is Metadata ==> entry.destination is None && entry.backend@ == "unknown"@,
        !(fault is Metadata) ==> entry.destination == moving.destination,
        match fault {
            MoveFault::Metadata(err) => {
                &&& entry.exit_code == err.os_code
                &&& entry.command@ == "<unavailable>"@
                &&& entry.error@ == "failed to read source metadata: "@ + err.text@
            },
            MoveFault::NoFileName { directory } => {
                &&& named(entry.backend@, directory)
                &&& entry.exit_code is None
                &&& entry.command@ == "<unavailable>"@
                &&& entry.error@ == "source path has no file name: "@ + moving.source@
            },
            MoveFault::SamePath { directory } => {
                &&& named(entry.backend@, directory)
                &&& entry.exit_code is None
                &&& entry.command@ == "<unavailable>"@
                &&& entry.error@ == "source and destination are the same path"@
            },
            MoveFault::DestinationExists { directory } => {
                &&& named(entry.backend@, directory)
                &&& entry.exit_code is None
                &&& entry.command@ == "<unavailable>"@
                &&& entry.error@ == "destination already exists, refusing to overwrite"@
            },
            MoveFault::Spawn { directory, error } => {
                &&& named(entry.backend@, directory)
                &&& entry.exit_code == error.os_code
                &&& shows(entry.command@, moving, destination, directory)
                &&& directory ==> entry.error@ == "failed to spawn robocopy: "@ + error.text@
                &&& !directory ==> entry.error@ == "failed to spawn cmd move: "@ + error.text@
            },
            MoveFault::Failed { directory, output } => {
                &&& named(entry.backend@, directory)
                &&& entry.exit_code == output.code
                &&& shows(entry.command@, moving, destination, directory)
                &&& entry.error@ == error_text(
                    utf8_lossy(output.stderr@),
                    utf8_lossy(output.stdout@),
                    output.code,
                )
            },
        },
{
}

/// Whether this is the name of the backend for a directory, or for anything else.
pub open spec fn named(backend: Seq<char>, directory: bool) -> bool {
    if directory {
        backend == "robocopy"@
    } else {
        backend == "cmd-move"@
    }
}

/// Whether this is the command of a move as it is shown.
pub open spec fn shows(
    line: Seq<char>,
    moving: MoveOne,
    destination: String,
    directory: bool,
) -> bool {
    if directory {
        line == command_line(
            "robocopy"@,
            robocopy_args(moving.source@, destination@, moving.mt),
        )
    } else {
        line == command_line("cmd"@, cmd_args(moving.source@, destination@))
    }
}

/// Each backend has its own name.
pub proof fn law_backends_have_names(backend: MoveBackend)
    ensures
        backend is CmdMove ==> backend_name(backend) == "cmd-move"@,
        backend is RoboCopy ==> backend_name(backend) == "robocopy"@,
        backend is Unknown ==> backend_name(backend) == "unknown"@,
        backend_for(true) is RoboCopy,
        backend_for(false) is CmdMove,
{
}

/// A move heads for the target directory under the name of its source, and knows
/// whether that is where it is already. A source without a name heads nowhere.
pub proof fn law_command_heads_for_its_own_name(moving: MoveOne, target_dir: Seq<char>)
    requires
        moving.heads_for(target_dir),
    ensures
        match file_name_of(Platform::Windows, moving.source@) {
            None => moving.destination is None,
            Some(name) => {
                let path = joined_path(Platform::Windows, target_dir, name);
                &&& moving.destination matches Some(text) && text@ == path
                &&& moving.same <==> same_parts(Platform::Windows, moving.source@, path)
            },
        },
{
}

/// The summary has one line for each entry that was not moved, with all that its
/// report holds.
pub proof fn law_summary_lists_the_failed_moves(
    outcome: MoveOutcome<MoveFailureEntry>,
    dry_run: bool,
    failure: MoveFailureEntry,
    lines: Seq<Seq<char>>,
)
    requires
        lines.len() == outcome.failures@.len(),
        forall|i: int|
            0 <= i < lines.len() ==> #[trigger] lines[i] == failure_line(outcome.failures@[i]),
    ensures
        summary(outcome, dry_run) == move_summary(
            outcome,
            dry_run,
            "move"@,
            "Move failures:"@,
            lines,
        ),
        failure_line(failure) == "- source="@ + failure.source@ + " | destination="@ + (
        match failure.destination {
            Some(path) => path@,
            None => "unknown"@,
        }) + " | backend="@ + failure.backend@ + " | exit_code="@ + (match failure.exit_code {
            Some(code) => signed_decimal(code as int),
            None => "unknown"@,
        }) + " | command="@ + failure.command@ + " | "@ + failure.error@,
{
    assert(lines =~= Seq::new(
        outcome.failures@.len(),
        |i: int| failure_line(outcome.failures@[i]),
    ));
}

/// The next move of a batch is that of its next source, into its target directory,
/// from the beginning.
pub proof fn law_next_move_follows_its_batch(
    moving: MoveOne,
    batch: Batch<MoveFailureEntry>,
    mt: Option<usize>,
)
    requires
        batch.valid(),
        batch.stage == BatchStage::Moving,
        moving.is_next_of(batch, mt),
    ensures
        moving.source == batch.sources@[batch.next as int],
        moving.mt == mt,
        moving.dry_run <==> batch.dry_run,
        moving.stage is Inspecting,
        file_name_of(Platform::Windows, moving.source@) matches Some(name) ==> (
        moving.destination matches Some(path) && path@ == joined_path(
            Platform::Windows,
            batch.target_dir@,
            name,
        )),
{
}

/// A finished move counts as it ended, and a failure is that of this move.
pub proof fn law_settled_moves_count_as_they_ended(
    moving: MoveOne,
    result: Result<(), MoveFailureEntry>,
)
    requires
        moving.settled(result),
    ensures
        moving.asks(None),
        result is Ok <==> moving.stage matches MoveOneStage::Finished(Ok(_)),
        result matches Err(entry) ==> entry.source == moving.source && (
        moving.stage matches MoveOneStage::Finished(Err(fault)) && moving.reports(fault, entry)),
{
}

/// The command that is shown of a move is the one that is run.
pub proof fn law_shown_command_is_the_one_that_is_run(
    moving: MoveOne,
    directory: bool,
    destination: String,
    command: MoveCommand,
)
    requires
        moving.stage == (MoveOneStage::Running { directory }),
        moving.destination == Some(destination),
        moving.asks(Some(MoveOneRequest::Run(command))),
    ensures
        moving.shown_command(directory) == command_line(command.program@, texts(command.args@)),
{
}

} // verus!
