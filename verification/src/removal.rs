//! Removing one entry, with as many tries as it takes.
use crate::delete::{
    is_retriable_delete_error, should_try_attribute_fix, should_try_permission_repair,
};
use crate::fault::{ErrorKind, IoError};
use vstd::prelude::*;

verus! {

/// How often a removal is tried.
pub const DELETE_ATTEMPTS: usize = 5;

/// What is removed, and so by which call.
#[derive(Debug, Clone, Copy, PartialEq, Eq, Structural)]
pub enum RemovalKind {
    /// A directory with everything in it.
    Tree,
    /// A link to a directory.
    Link,
    /// A directory whose entries were dealt with.
    Node,
    /// A file, or a link to one.
    File { was_readonly: bool },
}

/// Where a removal stands.
#[derive(Debug)]
pub enum RemovalStage {
    /// The entry is being removed.
    Removing,
    /// Removing failed with this error; read-only attributes are being cleared.
    Clearing(IoError),
    /// Removing failed with this error; permissions are being repaired.
    Repairing(IoError),
    /// A pause of so many milliseconds before the next try.
    Waiting(u64),
    Finished(Result<(), IoError>),
}

/// The removal of one entry.
#[derive(Debug)]
pub struct Removal {
    pub path: String,
    pub kind: RemovalKind,
    pub repair_permissions: bool,
    pub cleared_attributes: bool,
    pub repaired_permissions: bool,
    /// How many tries have failed so far.
    pub attempt: usize,
    pub stage: RemovalStage,
}

/// What a removal asks for.
#[derive(Debug)]
pub enum RemovalRequest {
    RemoveDirAll { path: String },
    RemoveDir { path: String },
    RemoveFile { path: String },
    ClearReadonly { path: String },
    ClearReadonlyRecursive { path: String },
    RepairPermissions { path: String, recursive: bool },
    Sleep { millis: u64 },
}

/// The answer to a request of a removal.
#[derive(Debug)]
pub enum RemovalReply {
    /// How removing or clearing went.
    Outcome(Result<(), IoError>),
    /// Whether the repair of permissions went through.
    Repaired(bool),
    Slept,
}

/// The pause after the try of that number, counted from zero.
pub open spec fn delay_after(attempt: int) -> u64 {
    if attempt == 0 {
        50
    } else if attempt == 1 {
        100
    } else if attempt == 2 {
        200
    } else if attempt == 3 {
        400
    } else {
        800
    }
}

fn retry_delay(attempt: usize) -> (millis: u64)
    ensures
        millis == delay_after(attempt as int),
{
    if attempt == 0 {
        50
    } else if attempt == 1 {
        100
    } else if attempt == 2 {
        200
    } else if attempt == 3 {
        400
    } else {
        800
    }
}

impl Removal {
    /// A removal that has not been tried yet.
    pub open spec fn fresh(path: String, kind: RemovalKind, repair_permissions: bool) -> Removal {
        Removal {
            path,
            kind,
            repair_permissions,
            cleared_attributes: false,
            repaired_permissions: false,
            attempt: 0,
            stage: RemovalStage::Removing,
        }
    }

    /// The tries that a removal has left bound its tries so far.
    pub open spec fn valid(self) -> bool {
        self.attempt < DELETE_ATTEMPTS && (self.stage is Waiting ==> self.attempt + 1
            < DELETE_ATTEMPTS)
    }

    /// What is asked for next.
    pub open spec fn asks(self) -> Option<RemovalRequest> {
        match self.stage {
            RemovalStage::Removing => Some(
                match self.kind {
                    RemovalKind::Tree => RemovalRequest::RemoveDirAll { path: self.path },
                    RemovalKind::Link => RemovalRequest::RemoveDir { path: self.path },
                    RemovalKind::Node => RemovalRequest::RemoveDir { path: self.path },
                    RemovalKind::File { .. } => RemovalRequest::RemoveFile { path: self.path },
                },
            ),
            RemovalStage::Clearing(_) => Some(
                if self.kind is Tree {
                    RemovalRequest::ClearReadonlyRecursive { path: self.path }
                } else {
                    RemovalRequest::ClearReadonly { path: self.path }
                },
            ),
            RemovalStage::Repairing(_) => Some(
                RemovalRequest::RepairPermissions {
                    path: self.path,
                    recursive: self.kind is Tree,
                },
            ),
            RemovalStage::Waiting(millis) => Some(RemovalRequest::Sleep { millis }),
            RemovalStage::Finished(_) => None,
        }
    }

    /// Whether `reply` answers what is asked for.
    pub open spec fn awaits(self, reply: RemovalReply) -> bool {
        match self.stage {
            RemovalStage::Removing => reply is Outcome,
            RemovalStage::Clearing(_) => reply is Outcome,
            RemovalStage::Repairing(_) => reply is Repaired,
            RemovalStage::Waiting(_) => reply is Slept,
            RemovalStage::Finished(_) => false,
        }
    }

    /// Attributes are cleared once, where that can help: of a whole tree, or of
    /// a file that was read-only.
    pub open spec fn wants_clearing(self, err: IoError) -> bool {
        &&& !self.cleared_attributes
        &&& crate::delete::retriable(err)
        &&& match self.kind {
            RemovalKind::Tree => true,
            RemovalKind::File { was_readonly } => was_readonly,
            _ => false,
        }
    }

    /// Permissions are repaired once, where the user allows it and it can help.
    pub open spec fn wants_repair(self, err: IoError) -> bool {
        &&& self.repair_permissions
        &&& !self.repaired_permissions
        &&& crate::delete::repairable(err)
    }

    /// A try ended with `err`: the last one, and one that no further try can
    /// mend, ends the removal.
    pub open spec fn after_failed_try(self, err: IoError) -> Removal {
        if self.attempt + 1 == DELETE_ATTEMPTS || !crate::delete::retriable(err) {
            Removal { stage: RemovalStage::Finished(Err(err)), ..self }
        } else {
            Removal { stage: RemovalStage::Waiting(delay_after(self.attempt as int)), ..self }
        }
    }

    /// Removing failed with `err` and attributes are out of the way.
    pub open spec fn after_attributes(self, err: IoError) -> Removal {
        if self.wants_repair(err) {
            Removal { stage: RemovalStage::Repairing(err), ..self }
        } else {
            self.after_failed_try(err)
        }
    }

    /// The removal once `reply` has come in. An entry that is gone counts as
    /// removed. Where the attributes of a single file cannot be cleared, that
    /// failure stands for the try.
    pub open spec fn after(self, reply: RemovalReply) -> Removal {
        match (self.stage, reply) {
            (RemovalStage::Removing, RemovalReply::Outcome(Ok(_))) => Removal {
                stage: RemovalStage::Finished(Ok(())),
                ..self
            },
            (RemovalStage::Removing, RemovalReply::Outcome(Err(err))) => if err.kind
                == ErrorKind::NotFound {
                Removal { stage: RemovalStage::Finished(Ok(())), ..self }
            } else if self.wants_clearing(err) {
                Removal { stage: RemovalStage::Clearing(err), ..self }
            } else {
                self.after_attributes(err)
            },
            (RemovalStage::Clearing(err), RemovalReply::Outcome(result)) => if self.kind is File
                && result is Err {
                self.after_failed_try(result->Err_0)
            } else {
                (Removal { cleared_attributes: true, ..self }).after_attributes(err)
            },
            (RemovalStage::Repairing(err), RemovalReply::Repaired(done)) => (Removal {
                repaired_permissions: self.repaired_permissions || done,
                ..self
            }).after_failed_try(err),
            (RemovalStage::Waiting(_), RemovalReply::Slept) => Removal {
                attempt: (self.attempt + 1) as usize,
                stage: RemovalStage::Removing,
                ..self
            },
            _ => self,
        }
    }

    fn start(path: String, kind: RemovalKind, repair_permissions: bool) -> (removal: Removal)
        ensures
            removal == Removal::fresh(path, kind, repair_permissions),
            removal.valid(),
    {
        Removal {
            path,
            kind,
            repair_permissions,
            cleared_attributes: false,
            repaired_permissions: false,
            attempt: 0,
            stage: RemovalStage::Removing,
        }
    }

    /// What is to be done next; nothing once the removal is finished.
    pub fn request(&self) -> (request: Option<RemovalRequest>)
        ensures
            request == self.asks(),
    {
        match &self.stage {
            RemovalStage::Removing => Some(
                match self.kind {
                    RemovalKind::Tree => RemovalRequest::RemoveDirAll { path: self.path.clone() },
                    RemovalKind::Link => RemovalRequest::RemoveDir { path: self.path.clone() },
                    RemovalKind::Node => RemovalRequest::RemoveDir { path: self.path.clone() },
                    RemovalKind::File { .. } => RemovalRequest::RemoveFile {
                        path: self.path.clone(),
                    },
                },
            ),
            RemovalStage::Clearing(_) => Some(
                match self.kind {
                    RemovalKind::Tree => RemovalRequest::ClearReadonlyRecursive {
                        path: self.path.clone(),
                    },
                    _ => RemovalRequest::ClearReadonly { path: self.path.clone() },
                },
            ),
            RemovalStage::Repairing(_) => Some(
                RemovalRequest::RepairPermissions {
                    path: self.path.clone(),
                    recursive: matches!(self.kind, RemovalKind::Tree),
                },
            ),
            RemovalStage::Waiting(millis) => Some(RemovalRequest::Sleep { millis: *millis }),
            RemovalStage::Finished(_) => None,
        }
    }

    fn failed_try(self, err: IoError) -> (removal: Removal)
        requires
            self.attempt < DELETE_ATTEMPTS,
        ensures
            removal == self.after_failed_try(err),
            removal.valid(),
    {
        if self.attempt + 1 == DELETE_ATTEMPTS || !is_retriable_delete_error(&err) {
            Removal { stage: RemovalStage::Finished(Err(err)), ..self }
        } else {
            let millis: u64 = retry_delay(self.attempt);
            Removal { stage: RemovalStage::Waiting(millis), ..self }
        }
    }

    fn past_attributes(self, err: IoError) -> (removal: Removal)
        requires
            self.attempt < DELETE_ATTEMPTS,
        ensures
            removal == self.after_attributes(err),
            removal.valid(),
    {
        if self.repair_permissions && !self.repaired_permissions && should_try_permission_repair(
            &err,
        ) {
            Removal { stage: RemovalStage::Repairing(err), ..self }
        } else {
            self.failed_try(err)
        }
    }

    fn clearing_could_help(&self, err: &IoError) -> (yes: bool)
        ensures
            yes == self.wants_clearing(*err),
    {
        let kind_fits = match self.kind {
            RemovalKind::Tree => true,
            RemovalKind::File { was_readonly } => was_readonly,
            _ => false,
        };
        !self.cleared_attributes && kind_fits && should_try_attribute_fix(err)
    }

    /// Goes on with the answer to the last request.
    pub fn resume(self, reply: RemovalReply) -> (removal: Removal)
        requires
            self.valid(),
            self.awaits(reply),
        ensures
            removal == self.after(reply),
            removal.valid(),
    {
        let Removal {
            path,
            kind,
            repair_permissions,
            cleared_attributes,
            repaired_permissions,
            attempt,
            stage,
        } = self;
        let this = Removal {
            path,
            kind,
            repair_permissions,
            cleared_attributes,
            repaired_permissions,
            attempt,
            stage: RemovalStage::Removing,
        };
        match (stage, reply) {
            (RemovalStage::Removing, RemovalReply::Outcome(Ok(_))) => Removal {
                stage: RemovalStage::Finished(Ok(())),
                ..this
            },
            (RemovalStage::Removing, RemovalReply::Outcome(Err(err))) => {
                if err.kind == ErrorKind::NotFound {
                    Removal { stage: RemovalStage::Finished(Ok(())), ..this }
                } else if this.clearing_could_help(&err) {
                    Removal { stage: RemovalStage::Clearing(err), ..this }
                } else {
                    this.past_attributes(err)
                }
            },
            (RemovalStage::Clearing(err), RemovalReply::Outcome(result)) => {
                match (this.kind, result) {
                    (RemovalKind::File { .. }, Err(clear_err)) => this.failed_try(clear_err),
                    _ => (Removal { cleared_attributes: true, ..this }).past_attributes(err),
                }
            },
            (RemovalStage::Repairing(err), RemovalReply::Repaired(done)) => {
                let repaired = this.repaired_permissions || done;
                (Removal { repaired_permissions: repaired, ..this }).failed_try(err)
            },
            (RemovalStage::Waiting(_), RemovalReply::Slept) => Removal {
                attempt: this.attempt + 1,
                stage: RemovalStage::Removing,
                ..this
            },
            (stage, _) => Removal { stage, ..this },
        }
    }

    /// How the removal ended.
    pub fn result(self) -> (result: Option<Result<(), IoError>>)
        ensures
            match self.stage {
                RemovalStage::Finished(end) => result == Some(end),
                _ => result is None,
            },
    {
        match self.stage {
            RemovalStage::Finished(result) => Some(result),
            _ => None,
        }
    }
}

/// Removes a directory with everything in it.
pub fn delete_directory_tree_native(path: String, repair_permissions: bool) -> (removal: Removal)
    ensures
        removal == Removal::fresh(path, RemovalKind::Tree, repair_permissions),
        removal.valid(),
{
    Removal::start(path, RemovalKind::Tree, repair_permissions)
}

/// Removes a link to a directory, and nothing behind it.
pub fn delete_directory_link(path: String, repair_permissions: bool) -> (removal: Removal)
    ensures
        removal == Removal::fresh(path, RemovalKind::Link, repair_permissions),
        removal.valid(),
{
    Removal::start(path, RemovalKind::Link, repair_permissions)
}

/// Removes a directory that should be empty.
pub fn delete_directory_node(path: String, repair_permissions: bool) -> (removal: Removal)
    ensures
        removal == Removal::fresh(path, RemovalKind::Node, repair_permissions),
        removal.valid(),
{
    Removal::start(path, RemovalKind::Node, repair_permissions)
}

/// Removes a file.
pub fn delete_file(path: String, was_readonly: bool, repair_permissions: bool) -> (removal: Removal)
    ensures
        removal == Removal::fresh(path, RemovalKind::File { was_readonly }, repair_permissions),
        removal.valid(),
{
    Removal::start(path, RemovalKind::File { was_readonly }, repair_permissions)
}

/// Removes an entry as what it is.
pub fn removal_of(path: String, kind: RemovalKind, repair_permissions: bool) -> (removal: Removal)
    ensures
        removal == Removal::fresh(path, kind, repair_permissions),
        removal.valid(),
{
    match kind {
        RemovalKind::Tree => delete_directory_tree_native(path, repair_permissions),
        RemovalKind::Link => delete_directory_link(path, repair_permissions),
        RemovalKind::Node => delete_directory_node(path, repair_permissions),
        RemovalKind::File { was_readonly } => delete_file(path, was_readonly, repair_permissions),
    }
}

// ---------------------------------------------------------------------------
// Whole removals

/// What the file system has in store for one try: how removing goes, how
/// clearing attributes would go, and whether a repair would go through.
pub struct Attempt {
    pub removing: Result<(), IoError>,
    pub clearing: Result<(), IoError>,
    pub repairing: bool,
}

impl Removal {
    /// The removal after all of `replies`.
    pub open spec fn run(self, replies: Seq<RemovalReply>) -> Removal
        decreases replies.len(),
    {
        if replies.len() == 0 {
            self
        } else {
            self.after(replies[0]).run(replies.drop_first())
        }
    }

    /// Each of `replies` answers what is asked for when it comes.
    pub open spec fn accepts(self, replies: Seq<RemovalReply>) -> bool
        decreases replies.len(),
    {
        replies.len() > 0 ==> self.awaits(replies[0]) && self.after(replies[0]).accepts(
            replies.drop_first(),
        )
    }

    /// What one try comes to.
    pub open spec fn attempt_result(self, a: Attempt) -> Result<(), IoError> {
        match a.removing {
            Ok(_) => Ok(()),
            Err(err) => if err.kind == ErrorKind::NotFound {
                Ok(())
            } else if self.wants_clearing(err) && self.kind is File && a.clearing is Err {
                a.clearing
            } else {
                Err(err)
            },
        }
    }

    /// Whether attributes are cleared in the course of a try.
    pub open spec fn clears(self, a: Attempt) -> bool {
        &&& a.removing is Err
        &&& a.removing->Err_0.kind != ErrorKind::NotFound
        &&& self.wants_clearing(a.removing->Err_0)
        &&& !(self.kind is File && a.clearing is Err)
    }

    /// Whether a repair is asked for in the course of a try.
    pub open spec fn repairs(self, a: Attempt) -> bool {
        &&& self.attempt_result(a) is Err
        &&& !(self.wants_clearing(a.removing->Err_0) && self.kind is File && a.clearing is Err)
        &&& self.wants_repair(a.removing->Err_0)
    }

    /// The removal at the start of the try that follows a failed one.
    pub open spec fn next_attempt(self, a: Attempt) -> Removal {
        Removal {
            cleared_attributes: self.cleared_attributes || self.clears(a),
            repaired_permissions: self.repaired_permissions || (self.repairs(a) && a.repairing),
            attempt: (self.attempt + 1) as usize,
            ..self
        }
    }

    /// Whether the result of a try ends the removal.
    pub open spec fn decisive(self, a: Attempt) -> bool {
        match self.attempt_result(a) {
            Ok(_) => true,
            Err(err) => self.attempt + 1 == DELETE_ATTEMPTS || !crate::delete::retriable(err),
        }
    }

    /// The result of the first try that ends the removal.
    pub open spec fn outcome(self, attempts: Seq<Attempt>) -> Option<Result<(), IoError>>
        decreases attempts.len(),
    {
        if attempts.len() == 0 {
            None
        } else if self.decisive(attempts[0]) {
            Some(self.attempt_result(attempts[0]))
        } else {
            self.next_attempt(attempts[0]).outcome(attempts.drop_first())
        }
    }

    /// The replies to what is asked for in the course of one try.
    pub open spec fn attempt_replies(self, a: Attempt) -> Seq<RemovalReply> {
        let removing = seq![RemovalReply::Outcome(a.removing)];
        let clearing = if a.removing is Err && a.removing->Err_0.kind != ErrorKind::NotFound
            && self.wants_clearing(a.removing->Err_0) {
            seq![RemovalReply::Outcome(a.clearing)]
        } else {
            seq![]
        };
        let repairing = if self.repairs(a) {
            seq![RemovalReply::Repaired(a.repairing)]
        } else {
            seq![]
        };
        removing + clearing + repairing
    }

    /// The replies to what is asked for until the removal ends.
    pub open spec fn replies(self, attempts: Seq<Attempt>) -> Seq<RemovalReply>
        decreases attempts.len(),
    {
        if attempts.len() == 0 {
            seq![]
        } else if self.decisive(attempts[0]) {
            self.attempt_replies(attempts[0])
        } else {
            self.attempt_replies(attempts[0]) + seq![RemovalReply::Slept] + self.next_attempt(
                attempts[0],
            ).replies(attempts.drop_first())
        }
    }

    /// How long each pause was.
    pub open spec fn pauses(self, replies: Seq<RemovalReply>) -> Seq<u64>
        decreases replies.len(),
    {
        if replies.len() == 0 {
            seq![]
        } else {
            let rest = self.after(replies[0]).pauses(replies.drop_first());
            match self.stage {
                RemovalStage::Waiting(millis) => seq![millis] + rest,
                _ => rest,
            }
        }
    }
}

proof fn lemma_run_in_parts(removal: Removal, first: Seq<RemovalReply>, second: Seq<RemovalReply>)
    ensures
        removal.run(first + second) == removal.run(first).run(second),
        removal.accepts(first) && removal.run(first).accepts(second) ==> removal.accepts(
            first + second,
        ),
    decreases first.len(),
{
    if first.len() == 0 {
        assert(first + second =~= second);
    } else {
        assert((first + second).drop_first() =~= first.drop_first() + second);
        lemma_run_in_parts(removal.after(first[0]), first.drop_first(), second);
    }
}

proof fn lemma_one_attempt(removal: Removal, a: Attempt)
    requires
        removal.valid(),
        removal.stage is Removing,
    ensures
        removal.accepts(removal.attempt_replies(a)),
        removal.decisive(a) ==> removal.run(removal.attempt_replies(a)).stage
            == RemovalStage::Finished(removal.attempt_result(a)),
        !removal.decisive(a) ==> {
            let end = removal.run(removal.attempt_replies(a));
            &&& end.awaits(RemovalReply::Slept)
            &&& end.after(RemovalReply::Slept) == removal.next_attempt(a)
        },
{
    reveal_with_fuel(Removal::run, 4);
    reveal_with_fuel(Removal::accepts, 4);
    let replies = removal.attempt_replies(a);
    assert(replies[0] == RemovalReply::Outcome(a.removing));
    if a.removing is Err && a.removing->Err_0.kind != ErrorKind::NotFound {
        let err = a.removing->Err_0;
        if removal.wants_clearing(err) {
            assert(replies[1] == RemovalReply::Outcome(a.clearing));
            assert(replies.drop_first()[0] == replies[1]);
            if removal.repairs(a) {
                assert(replies.len() == 3);
                assert(replies.drop_first().drop_first()[0] == RemovalReply::Repaired(a.repairing));
            } else {
                assert(replies.len() == 2);
            }
        } else if removal.repairs(a) {
            assert(replies.len() == 2);
            assert(replies.drop_first()[0] == RemovalReply::Repaired(a.repairing));
        } else {
            assert(replies.len() == 1);
        }
    } else {
        assert(replies.len() == 1);
    }
}

/// A removal ends with the result of the first try that succeeds, that fails in
/// a way no further try can mend, or that is the last one allowed.
pub proof fn law_removal_ends_with_first_decisive_try(removal: Removal, attempts: Seq<Attempt>)
    requires
        removal.valid(),
        removal.stage is Removing,
        removal.outcome(attempts) is Some,
    ensures
        removal.accepts(removal.replies(attempts)),
        removal.run(removal.replies(attempts)).stage == RemovalStage::Finished(
            removal.outcome(attempts)->0,
        ),
    decreases attempts.len(),
{
    let a = attempts[0];
    lemma_one_attempt(removal, a);
    if !removal.decisive(a) {
        let this = removal.attempt_replies(a);
        let slept = seq![RemovalReply::Slept];
        let next = removal.next_attempt(a);
        let rest = next.replies(attempts.drop_first());
        law_removal_ends_with_first_decisive_try(next, attempts.drop_first());
        let end = removal.run(this);
        reveal_with_fuel(Removal::run, 2);
        reveal_with_fuel(Removal::accepts, 2);
        assert(end.run(slept) == next);
        assert(end.accepts(slept));
        lemma_run_in_parts(removal, this, slept);
        lemma_run_in_parts(removal, this + slept, rest);
    }
}

/// A removal always ends: as many tries as are allowed decide it.
pub proof fn law_removal_ends(removal: Removal, attempts: Seq<Attempt>)
    requires
        removal.valid(),
        removal.stage is Removing,
        attempts.len() >= DELETE_ATTEMPTS - removal.attempt,
    ensures
        removal.outcome(attempts) is Some,
    decreases attempts.len(),
{
    if !removal.decisive(attempts[0]) {
        law_removal_ends(removal.next_attempt(attempts[0]), attempts.drop_first());
    }
}

/// The pauses of a removal are 50, 100, 200 and 400 milliseconds, in this order,
/// as far as it comes; it never waits after its last try.
pub proof fn law_pauses_grow(removal: Removal, replies: Seq<RemovalReply>)
    requires
        removal.valid(),
        removal.stage is Waiting ==> removal.stage == RemovalStage::Waiting(
            delay_after(removal.attempt as int),
        ),
        removal.accepts(replies),
    ensures
        removal.pauses(replies).len() + removal.attempt < DELETE_ATTEMPTS,
        forall|i: int|
            0 <= i < removal.pauses(replies).len() ==> #[trigger] removal.pauses(replies)[i]
                == delay_after(removal.attempt + i),
    decreases replies.len(),
{
    if replies.len() > 0 {
        let next = removal.after(replies[0]);
        law_pauses_grow(next, replies.drop_first());
        let rest = next.pauses(replies.drop_first());
        if removal.stage is Waiting {
            assert forall|i: int| 0 <= i < removal.pauses(replies).len() implies #[trigger] removal.pauses(
                replies,
            )[i] == delay_after(removal.attempt + i) by {
                if i > 0 {
                    assert(removal.pauses(replies)[i] == rest[i - 1]);
                }
            }
        }
    }
}

/// Permissions are repaired only where the user allows it, and only after access
/// was denied.
pub proof fn law_repair_needs_leave_and_denied_access(removal: Removal, reply: RemovalReply)
    requires
        removal.valid(),
        removal.awaits(reply),
        removal.after(reply).stage is Repairing,
    ensures
        removal.repair_permissions,
        removal.after(reply).stage matches RemovalStage::Repairing(err)
            && crate::delete::repairable(err),
        removal.after(reply).asks() == Some(
            RemovalRequest::RepairPermissions {
                path: removal.path,
                recursive: removal.kind is Tree,
            },
        ),
{
}

/// Attributes that were cleared are not cleared again, permissions that were
/// repaired are not repaired again, and without leave none are ever repaired.
pub proof fn law_help_is_asked_for_once(removal: Removal, replies: Seq<RemovalReply>)
    requires
        removal.stage is Removing,
    ensures
        removal.cleared_attributes ==> !(removal.run(replies).stage is Clearing),
        removal.repaired_permissions ==> !(removal.run(replies).stage is Repairing),
        !removal.repair_permissions ==> !(removal.run(replies).stage is Repairing),
{
    lemma_help_is_asked_for_once(removal, replies);
}

proof fn lemma_help_is_asked_for_once(removal: Removal, replies: Seq<RemovalReply>)
    ensures
        removal.cleared_attributes && !(removal.stage is Clearing) ==> !(removal.run(
            replies,
        ).stage is Clearing),
        removal.repaired_permissions && !(removal.stage is Repairing) ==> !(removal.run(
            replies,
        ).stage is Repairing),
        !removal.repair_permissions && !(removal.stage is Repairing) ==> !(removal.run(
            replies,
        ).stage is Repairing),
    decreases replies.len(),
{
    if replies.len() > 0 {
        lemma_help_is_asked_for_once(removal.after(replies[0]), replies.drop_first());
    }
}

// ---------------------------------------------------------------------------
// Single steps

/// What removes an entry depends on what it is.
pub proof fn law_entries_are_removed_as_what_they_are(removal: Removal)
    requires
        removal.stage is Removing,
    ensures
        removal.kind is Tree ==> removal.asks() == Some(
            RemovalRequest::RemoveDirAll { path: removal.path },
        ),
        removal.kind is Link || removal.kind is Node ==> removal.asks() == Some(
            RemovalRequest::RemoveDir { path: removal.path },
        ),
        removal.kind is File ==> removal.asks() == Some(
            RemovalRequest::RemoveFile { path: removal.path },
        ),
{
}

/// An entry that is removed, or that turns out to be gone, ends the removal well.
pub proof fn law_gone_is_removed(removal: Removal, err: IoError)
    requires
        removal.stage is Removing,
        err.kind is NotFound,
    ensures
        removal.after(RemovalReply::Outcome(Ok(()))).stage == RemovalStage::Finished(Ok(())),
        removal.after(RemovalReply::Outcome(Err(err))).stage == RemovalStage::Finished(Ok(())),
{
}

/// Whether a removal goes on from a try that failed with `err`, and how: five
/// tries are made at most, and only while the error may pass; the pauses between
/// them are 50, 100, 200 and 400 milliseconds. Nothing else of the removal
/// changes, but for the count of tries.
pub open spec fn waits_or_ends(before: Removal, failed: Removal, err: IoError) -> bool {
    let passing = err.kind is PermissionDenied || err.kind is WouldBlock || (err.os_code matches Some(
        code,
    ) && (code == 5 || code == 32 || code == 33 || code == 145));
    if passing && before.attempt < 4 {
        &&& failed == Removal { stage: failed.stage, ..before }
        &&& failed.asks() == Some(
            RemovalRequest::Sleep {
                millis: if before.attempt == 0 {
                    50
                } else if before.attempt == 1 {
                    100
                } else if before.attempt == 2 {
                    200
                } else {
                    400
                },
            },
        )
        &&& failed.after(RemovalReply::Slept) == (Removal {
            attempt: (before.attempt + 1) as usize,
            stage: RemovalStage::Removing,
            ..before
        })
    } else {
        failed == (Removal { stage: RemovalStage::Finished(Err(err)), ..before })
    }
}

/// After a failed try, read-only attributes are cleared first, of a whole tree or
/// of a file that was read-only, once and only where the error may pass; then
/// permissions are repaired, once, with leave, where access was denied; and then
/// the removal waits for the next try or ends with the error. Where the attributes
/// of a file cannot be cleared, it goes on as if that had been the error.
pub proof fn law_failed_try_is_followed_by_help(
    removal: Removal,
    err: IoError,
    clearing: Result<(), IoError>,
    repaired: bool,
)
    requires
        removal.stage is Removing,
        removal.attempt < 5,
        !(err.kind is NotFound),
    ensures
        ({
            let passing = err.kind is PermissionDenied || err.kind is WouldBlock || (
            err.os_code matches Some(code) && (code == 5 || code == 32 || code == 33 || code
                == 145));
            let denied = err.kind is PermissionDenied || (err.os_code matches Some(code) && code
                == 5);
            let clears = passing && !removal.cleared_attributes && (removal.kind is Tree
                || removal.kind == (RemovalKind::File { was_readonly: true }));
            let repairs = denied && removal.repair_permissions && !removal.repaired_permissions;
            let failed = removal.after(RemovalReply::Outcome(Err(err)));
            let cleared = failed.after(RemovalReply::Outcome(clearing));
            let helped = if clears {
                cleared
            } else {
                failed
            };
            let past_clearing = Removal {
                cleared_attributes: removal.cleared_attributes || clears,
                ..removal
            };
            &&& clears ==> {
                &&& failed == Removal { stage: failed.stage, ..removal }
                &&& failed.asks() == Some(
                    if removal.kind is Tree {
                        RemovalRequest::ClearReadonlyRecursive { path: removal.path }
                    } else {
                        RemovalRequest::ClearReadonly { path: removal.path }
                    },
                )
            }
            &&& if clears && removal.kind is File && clearing is Err {
                waits_or_ends(removal, cleared, clearing->Err_0)
            } else if repairs {
                &&& helped == Removal { stage: helped.stage, ..past_clearing }
                &&& helped.asks() == Some(
                    RemovalRequest::RepairPermissions {
                        path: removal.path,
                        recursive: removal.kind is Tree,
                    },
                )
                &&& waits_or_ends(
                    Removal { repaired_permissions: repaired, ..past_clearing },
                    helped.after(RemovalReply::Repaired(repaired)),
                    err,
                )
            } else {
                waits_or_ends(past_clearing, helped, err)
            }
        }),
{
}

/// A removal starts with its first try, without having helped itself yet.
pub proof fn law_removal_starts_with_a_try(path: String, kind: RemovalKind, repair: bool)
    ensures
        ({
            let removal = Removal::fresh(path, kind, repair);
            &&& removal.path == path
            &&& removal.kind == kind
            &&& removal.repair_permissions == repair
            &&& !removal.cleared_attributes
            &&& !removal.repaired_permissions
            &&& removal.attempt == 0
            &&& removal.stage is Removing
        }),
{
}

} // verus!
