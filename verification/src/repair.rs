//! Repairing permissions with `takeown` and `icacls`.
use crate::delete::{repairable, should_try_permission_repair};
use crate::fault::{CommandOutput, ErrorKind, IoError};
use crate::platform::Platform;
use crate::text::{from_utf8_lossy, texts, trim, trimmed, truncate_for_log, truncated, utf8_lossy};
use vstd::prelude::*;

verus! {

/// How much of what a command printed goes into an error.
pub const MAX_COMMAND_OUTPUT_CHARS: usize = 160;

/// Where a repair stands.
#[derive(Debug)]
pub enum RepairStage {
    /// `takeown` is running.
    TakingOwnership,
    /// `icacls` is running.
    Granting,
    Finished(Result<(), IoError>),
}

/// The repair of the permissions of one path.
#[derive(Debug)]
pub struct Repair {
    pub path: String,
    /// Whether everything below the path is meant too.
    pub recursive: bool,
    pub stage: RepairStage,
}

/// A command to run.
#[derive(Debug)]
pub struct RepairCommand {
    pub program: &'static str,
    pub args: Vec<String>,
}

/// The arguments that make the administrators own `path`.
pub open spec fn takeown_args(path: Seq<char>, recursive: bool) -> Seq<Seq<char>> {
    let args = seq!["/F"@, path, "/A"@, "/D"@, "Y"@];
    if recursive {
        args.push("/R"@)
    } else {
        args
    }
}

/// The arguments that give the administrators full access to `path`.
pub open spec fn icacls_args(path: Seq<char>, recursive: bool) -> Seq<Seq<char>> {
    let args = seq![path, "/grant"@, "*S-1-5-32-544:F"@, "/C"@];
    if recursive {
        args.push("/T"@)
    } else {
        args
    }
}

impl Repair {
    /// The repair once a command has ended with `result`: the second command
    /// runs only where the first went through.
    pub open spec fn after(self, result: Result<(), IoError>) -> Repair {
        let stage = match (self.stage, result) {
            (RepairStage::Finished(end), _) => RepairStage::Finished(end),
            (_, Err(err)) => RepairStage::Finished(Err(err)),
            (RepairStage::TakingOwnership, Ok(_)) => RepairStage::Granting,
            (RepairStage::Granting, Ok(_)) => RepairStage::Finished(Ok(())),
        };
        Repair { stage, ..self }
    }

    /// The command to run next; none once the repair is finished.
    pub fn command(&self) -> (command: Option<RepairCommand>)
        ensures
            match self.stage {
                RepairStage::TakingOwnership => command matches Some(c) && c.program@
                    == "takeown"@ && texts(c.args@) == takeown_args(self.path@, self.recursive),
                RepairStage::Granting => command matches Some(c) && c.program@ == "icacls"@
                    && texts(c.args@) == icacls_args(self.path@, self.recursive),
                RepairStage::Finished(_) => command is None,
            },
    {
        match &self.stage {
            RepairStage::TakingOwnership => {
                let mut args: Vec<String> = Vec::new();
                args.push("/F".to_owned());
                args.push(self.path.clone());
                args.push("/A".to_owned());
                args.push("/D".to_owned());
                args.push("Y".to_owned());
                if self.recursive {
                    args.push("/R".to_owned());
                }
                assert(texts(args@) =~= takeown_args(self.path@, self.recursive));
                Some(RepairCommand { program: "takeown", args })
            },
            RepairStage::Granting => {
                let mut args: Vec<String> = Vec::new();
                args.push(self.path.clone());
                args.push("/grant".to_owned());
                args.push("*S-1-5-32-544:F".to_owned());
                args.push("/C".to_owned());
                if self.recursive {
                    args.push("/T".to_owned());
                }
                assert(texts(args@) =~= icacls_args(self.path@, self.recursive));
                Some(RepairCommand { program: "icacls", args })
            },
            RepairStage::Finished(_) => None,
        }
    }

    /// Goes on with the result of the last command.
    pub fn resume(self, result: Result<(), IoError>) -> (repair: Repair)
        ensures
            repair == self.after(result),
    {
        let Repair { path, recursive, stage } = self;
        let stage = match (stage, result) {
            (RepairStage::Finished(end), _) => RepairStage::Finished(end),
            (_, Err(err)) => RepairStage::Finished(Err(err)),
            (RepairStage::TakingOwnership, Ok(_)) => RepairStage::Granting,
            (RepairStage::Granting, Ok(_)) => RepairStage::Finished(Ok(())),
        };
        Repair { path, recursive, stage }
    }

    /// How the repair ended.
    pub fn result(self) -> (result: Option<Result<(), IoError>>)
        ensures
            match self.stage {
                RepairStage::Finished(end) => result == Some(end),
                _ => result is None,
            },
    {
        match self.stage {
            RepairStage::Finished(result) => Some(result),
            _ => None,
        }
    }
}

/// Starts the repair of the permissions of `path`. It needs Windows.
pub fn repair_permissions_for_path(platform: Platform, path: String, recursive: bool) -> (repair:
    Repair)
    ensures
        repair.path == path,
        repair.recursive == recursive,
        platform == Platform::Windows ==> repair.stage is TakingOwnership,
        platform != Platform::Windows ==> (repair.stage matches RepairStage::Finished(Err(err))
            && err.kind == ErrorKind::Unsupported && err.os_code is None && err.text@
            == "permission repair mode requires Windows"@),
{
    match platform {
        Platform::Windows => Repair { path, recursive, stage: RepairStage::TakingOwnership },
        _ => {
            let err = IoError::new(
                ErrorKind::Unsupported,
                "permission repair mode requires Windows".to_owned(),
            );
            Repair { path, recursive, stage: RepairStage::Finished(Err(err)) }
        },
    }
}

/// Whether a repair that ended with `result` counts as done.
pub fn try_repair_permissions(result: &Result<(), IoError>) -> (done: bool)
    ensures
        done == (*result is Ok),
{
    match result {
        Ok(_) => true,
        Err(_) => false,
    }
}

/// What is said of a command that failed, given what it printed as an error.
pub open spec fn failure_text(name: Seq<char>, stderr: Seq<char>) -> Seq<char> {
    let said = trimmed(stderr);
    name + " failed: "@ + truncated(
        if said.len() == 0 {
            "<no stderr output>"@
        } else {
            said
        },
        MAX_COMMAND_OUTPUT_CHARS as int,
    )
}

/// The failure of a command that printed `stderr`.
pub fn command_failure(name: &str, stderr: &str) -> (err: IoError)
    ensures
        err.kind == ErrorKind::PermissionDenied,
        err.os_code is None,
        err.text@ == failure_text(name@, stderr@),
{
    let said = trim(stderr);
    let shown = if said.as_str().is_empty() {
        truncate_for_log("<no stderr output>", MAX_COMMAND_OUTPUT_CHARS)
    } else {
        truncate_for_log(said.as_str(), MAX_COMMAND_OUTPUT_CHARS)
    };
    let text = name.to_owned().concat(" failed: ").concat(shown.as_str());
    IoError::new(ErrorKind::PermissionDenied, text)
}

/// Whether a command went through, given how running it ended.
pub fn run_command_checked(name: &str, output: Result<CommandOutput, IoError>) -> (result: Result<
    (),
    IoError,
>)
    ensures
        match output {
            Err(err) => result == Err::<(), IoError>(err),
            Ok(output) => if output.success {
                result is Ok
            } else {
                result matches Err(err) && err.kind == ErrorKind::PermissionDenied
                    && err.os_code is None && err.text@ == failure_text(
                    name@,
                    utf8_lossy(output.stderr@),
                )
            },
        },
{
    match output {
        Err(err) => Err(err),
        Ok(output) => {
            if output.success {
                Ok(())
            } else {
                let stderr = from_utf8_lossy(output.stderr.as_slice());
                Err(command_failure(name, stderr.as_str()))
            }
        },
    }
}

/// A repair that goes through runs `takeown` and then `icacls`; one that fails
/// ends with the failure of the command that failed.
pub proof fn law_repair_runs_both_commands(
    repair: Repair,
    taking: Result<(), IoError>,
    granting: Result<(), IoError>,
)
    requires
        repair.stage is TakingOwnership,
    ensures
        taking is Err ==> repair.after(taking).stage == RepairStage::Finished(taking),
        taking is Ok ==> {
            &&& repair.after(taking).stage is Granting
            &&& repair.after(taking).after(granting).stage == RepairStage::Finished(granting)
        },
{
    if granting is Ok {
        assert(granting->Ok_0 == ());
    }
}

// ---------------------------------------------------------------------------
// Listings

/// Where the opening of a directory stands.
#[derive(Debug)]
pub enum OpenStage {
    /// The listing is being opened.
    Reading,
    /// Opening failed with this error; permissions are being repaired.
    Repairing(IoError),
    Finished(Result<(), IoError>),
}

/// The opening of a directory, with one repair of permissions where it helps.
#[derive(Debug)]
pub struct OpenDir {
    pub path: String,
    pub repair_permissions: bool,
    pub attempted_repair: bool,
    pub stage: OpenStage,
}

/// What the opening of a directory asks for.
#[derive(Debug)]
pub enum OpenRequest {
    ReadDir { path: String },
    RepairPermissions { path: String, recursive: bool },
}

/// The answer to a request of an opening.
#[derive(Debug)]
pub enum OpenReply {
    Read(Result<(), IoError>),
    Repaired(bool),
}

impl OpenDir {
    /// What is asked for next.
    pub open spec fn asks(self) -> Option<OpenRequest> {
        match self.stage {
            OpenStage::Reading => Some(OpenRequest::ReadDir { path: self.path }),
            OpenStage::Repairing(_) => Some(
                OpenRequest::RepairPermissions { path: self.path, recursive: true },
            ),
            OpenStage::Finished(_) => None,
        }
    }

    /// Whether `reply` answers what is asked for.
    pub open spec fn awaits(self, reply: OpenReply) -> bool {
        match self.stage {
            OpenStage::Reading => reply is Read,
            OpenStage::Repairing(_) => reply is Repaired,
            OpenStage::Finished(_) => false,
        }
    }

    /// The opening once `reply` has come in: a repair that went through is
    /// followed by a second look, and one that did not leaves the first error.
    pub open spec fn after(self, reply: OpenReply) -> OpenDir {
        match (self.stage, reply) {
            (OpenStage::Reading, OpenReply::Read(Ok(_))) => OpenDir {
                stage: OpenStage::Finished(Ok(())),
                ..self
            },
            (OpenStage::Reading, OpenReply::Read(Err(err))) => if self.repair_permissions
                && !self.attempted_repair && repairable(err) {
                OpenDir { stage: OpenStage::Repairing(err), ..self }
            } else {
                OpenDir { stage: OpenStage::Finished(Err(err)), ..self }
            },
            (OpenStage::Repairing(_), OpenReply::Repaired(true)) => OpenDir {
                attempted_repair: true,
                stage: OpenStage::Reading,
                ..self
            },
            (OpenStage::Repairing(err), OpenReply::Repaired(false)) => OpenDir {
                stage: OpenStage::Finished(Err(err)),
                ..self
            },
            _ => self,
        }
    }

    /// What is to be done next; nothing once the opening is finished.
    pub fn request(&self) -> (request: Option<OpenRequest>)
        ensures
            request == self.asks(),
    {
        match &self.stage {
            OpenStage::Reading => Some(OpenRequest::ReadDir { path: self.path.clone() }),
            OpenStage::Repairing(_) => Some(
                OpenRequest::RepairPermissions { path: self.path.clone(), recursive: true },
            ),
            OpenStage::Finished(_) => None,
        }
    }

    /// Goes on with the answer to the last request.
    pub fn resume(self, reply: OpenReply) -> (opening: OpenDir)
        requires
            self.awaits(reply),
        ensures
            opening == self.after(reply),
    {
        let OpenDir { path, repair_permissions, attempted_repair, stage } = self;
        match (stage, reply) {
            (OpenStage::Reading, OpenReply::Read(Ok(_))) => OpenDir {
                path,
                repair_permissions,
                attempted_repair,
                stage: OpenStage::Finished(Ok(())),
            },
            (OpenStage::Reading, OpenReply::Read(Err(err))) => {
                let stage = if repair_permissions && !attempted_repair
                    && should_try_permission_repair(&err) {
                    OpenStage::Repairing(err)
                } else {
                    OpenStage::Finished(Err(err))
                };
                OpenDir { path, repair_permissions, attempted_repair, stage }
            },
            (OpenStage::Repairing(err), OpenReply::Repaired(done)) => {
                if done {
                    OpenDir {
                        path,
                        repair_permissions,
                        attempted_repair: true,
                        stage: OpenStage::Reading,
                    }
                } else {
                    OpenDir {
                        path,
                        repair_permissions,
                        attempted_repair,
                        stage: OpenStage::Finished(Err(err)),
                    }
                }
            },
            (stage, _) => OpenDir { path, repair_permissions, attempted_repair, stage },
        }
    }

    /// How the opening ended.
    pub fn result(self) -> (result: Option<Result<(), IoError>>)
        ensures
            match self.stage {
                OpenStage::Finished(end) => result == Some(end),
                _ => result is None,
            },
    {
        match self.stage {
            OpenStage::Finished(result) => Some(result),
            _ => None,
        }
    }
}

/// Starts the opening of a directory.
pub fn read_dir_with_repair(path: String, repair_permissions: bool) -> (opening: OpenDir)
    ensures
        opening == (OpenDir {
            path,
            repair_permissions,
            attempted_repair: false,
            stage: OpenStage::Reading,
        }),
{
    OpenDir { path, repair_permissions, attempted_repair: false, stage: OpenStage::Reading }
}

/// An opening looks at most twice, and repairs at most once in between: after a
/// first failure it ends there, or with the result of the second look.
pub proof fn law_opening_repairs_at_most_once(
    opening: OpenDir,
    first: IoError,
    second: Result<(), IoError>,
)
    requires
        opening.stage is Reading,
        !opening.attempted_repair,
    ensures
        ({
            let failed = opening.after(OpenReply::Read(Err(first)));
            if opening.repair_permissions && repairable(first) {
                let again = failed.after(OpenReply::Repaired(true));
                &&& failed.after(OpenReply::Repaired(false)).stage == OpenStage::Finished(
                    Err(first),
                )
                &&& again.asks() == opening.asks()
                &&& again.after(OpenReply::Read(second)).stage == OpenStage::Finished(second)
            } else {
                failed.stage == OpenStage::Finished(Err(first))
            }
        }),
{
    if second is Ok {
        assert(second->Ok_0 == ());
    }
}

/// Ownership is taken with the path, `/A` and `/D Y`, and `/R` exactly if
/// everything below the path is meant too; access is granted to the administrators
/// with `/grant *S-1-5-32-544:F /C`, and `/T` exactly in the same case. There are
/// no other arguments.
pub proof fn law_repair_commands_are_complete(path: Seq<char>)
    ensures
        takeown_args(path, false) == seq!["/F"@, path, "/A"@, "/D"@, "Y"@],
        takeown_args(path, true) == seq!["/F"@, path, "/A"@, "/D"@, "Y"@, "/R"@],
        icacls_args(path, false) == seq![path, "/grant"@, "*S-1-5-32-544:F"@, "/C"@],
        icacls_args(path, true) == seq![path, "/grant"@, "*S-1-5-32-544:F"@, "/C"@, "/T"@],
{
    assert(takeown_args(path, true) =~= seq!["/F"@, path, "/A"@, "/D"@, "Y"@, "/R"@]);
    assert(icacls_args(path, true) =~= seq![path, "/grant"@, "*S-1-5-32-544:F"@, "/C"@, "/T"@]);
}

/// A failed command is reported with its name and at most 160 characters of what
/// it said, or with the fact that it said nothing.
pub proof fn law_failed_command_is_quoted(name: Seq<char>, stderr: Seq<char>)
    ensures
        ({
            let said = trimmed(stderr);
            let text = failure_text(name, stderr);
            &&& said.len() == 0 ==> text == name + " failed: "@ + "<no stderr output>"@
            &&& 0 < said.len() <= 160 ==> text == name + " failed: "@ + said
            &&& said.len() > 160 ==> text == name + " failed: "@ + (said.take(160) + "..."@)
        }),
{
    reveal_strlit("<no stderr output>");
}

/// A directory that cannot be opened is repaired exactly if access was denied, the
/// user allows it, and it was not repaired before; everything below it is repaired
/// too.
pub proof fn law_opening_asks_for_repair_where_access_is_denied(opening: OpenDir, err: IoError)
    requires
        opening.stage is Reading,
    ensures
        opening.asks() == Some(OpenRequest::ReadDir { path: opening.path }),
        opening.after(OpenReply::Read(Ok(()))).stage == OpenStage::Finished(Ok(())),
        ({
            let denied = err.kind is PermissionDenied || (err.os_code matches Some(code) && code
                == 5);
            let failed = opening.after(OpenReply::Read(Err(err)));
            if denied && opening.repair_permissions && !opening.attempted_repair {
                let repaired = failed.after(OpenReply::Repaired(true));
                &&& failed.asks() == Some(
                    OpenRequest::RepairPermissions { path: opening.path, recursive: true },
                )
                &&& repaired == (OpenDir { attempted_repair: true, ..opening })
                &&& failed.after(OpenReply::Repaired(false)).stage == OpenStage::Finished(Err(err))
            } else {
                failed.stage == OpenStage::Finished(Err(err))
            }
        }),
{
}

} // verus!
