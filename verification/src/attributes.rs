//! Clearing the read-only attribute, of one entry or of a whole tree.
use crate::delete::{is_directory_reparse_point, leads_elsewhere};
use crate::fault::{FileMeta, IoError};
use crate::platform::Platform;
use vstd::prelude::*;

verus! {

/// Where a clearing stands.
#[derive(Debug)]
pub enum ClearStage {
    /// This entry is being looked at.
    Inspecting { path: String },
    /// This entry is being made writable; it is entered afterwards if so marked.
    Writing { path: String, enter: bool },
    /// This directory is being opened.
    Opening { path: String },
    /// The next entry of the innermost directory is being read.
    Listing,
    Finished(Result<(), IoError>),
}

/// The clearing of read-only attributes.
#[derive(Debug)]
pub struct ClearReadonly {
    pub platform: Platform,
    pub recursive: bool,
    /// The directories that are open, the innermost last.
    pub open: Vec<String>,
    pub stage: ClearStage,
}

/// What a clearing asks for.
#[derive(Debug)]
pub enum ClearRequest {
    /// What the path is, without following a link.
    SymlinkMetadata { path: String },
    /// The read-only attribute taken off the path.
    MakeWritable { path: String },
    /// A listing of the directory, which is the innermost from then on.
    ReadDir { path: String },
    /// The next entry of the innermost listing, which ends with it.
    NextEntry,
}

/// The answer to a request of a clearing.
#[derive(Debug)]
pub enum ClearReply {
    Metadata(Result<FileMeta, IoError>),
    Written(Result<(), IoError>),
    Opened(Result<(), IoError>),
    Entry(Option<Result<String, IoError>>),
}

/// What decides how far a clearing goes.
pub struct ClearRules {
    pub platform: Platform,
    pub recursive: bool,
}

/// A clearing under way.
pub struct Clearing {
    pub rules: ClearRules,
    pub depth: nat,
    pub stage: ClearStage,
}

impl View for ClearReadonly {
    type V = Clearing;

    open spec fn view(&self) -> Clearing {
        Clearing {
            rules: ClearRules { platform: self.platform, recursive: self.recursive },
            depth: self.open@.len(),
            stage: self.stage,
        }
    }
}

impl ClearRules {
    /// Whether the entries of a directory are cleared too.
    pub open spec fn enters(self, metadata: FileMeta) -> bool {
        self.recursive && metadata.is_dir && !leads_elsewhere(self.platform, metadata)
    }
}

impl Clearing {
    /// A clearing of the entry at `path` that has not begun.
    pub open spec fn fresh(platform: Platform, path: String, recursive: bool) -> Clearing {
        Clearing {
            rules: ClearRules { platform, recursive },
            depth: 0,
            stage: ClearStage::Inspecting { path },
        }
    }

    /// Entries are read only where a directory is open.
    pub open spec fn valid(self) -> bool {
        self.stage is Listing ==> self.depth > 0
    }

    /// What is asked for next.
    pub open spec fn asks(self) -> Option<ClearRequest> {
        match self.stage {
            ClearStage::Inspecting { path } => Some(ClearRequest::SymlinkMetadata { path }),
            ClearStage::Writing { path, .. } => Some(ClearRequest::MakeWritable { path }),
            ClearStage::Opening { path } => Some(ClearRequest::ReadDir { path }),
            ClearStage::Listing => Some(ClearRequest::NextEntry),
            ClearStage::Finished(_) => None,
        }
    }

    /// Whether `reply` answers what is asked for.
    pub open spec fn awaits(self, reply: ClearReply) -> bool {
        match self.stage {
            ClearStage::Inspecting { .. } => reply is Metadata,
            ClearStage::Writing { .. } => reply is Written,
            ClearStage::Opening { .. } => reply is Opened,
            ClearStage::Listing => reply is Entry,
            ClearStage::Finished(_) => false,
        }
    }

    pub open spec fn failed(self, err: IoError) -> Clearing {
        Clearing { stage: ClearStage::Finished(Err(err)), ..self }
    }

    /// An entry is dealt with: the next one of the innermost directory follows.
    pub open spec fn up(self) -> Clearing {
        if self.depth > 0 {
            Clearing { stage: ClearStage::Listing, ..self }
        } else {
            Clearing { stage: ClearStage::Finished(Ok(())), ..self }
        }
    }

    /// An entry is writable, and entered if it is to be.
    pub open spec fn writable(self, path: String, enter: bool) -> Clearing {
        if enter {
            Clearing { stage: ClearStage::Opening { path }, ..self }
        } else {
            self.up()
        }
    }

    /// The clearing once `reply` has come in: the first failure ends it.
    pub open spec fn after(self, reply: ClearReply) -> Clearing {
        match (self.stage, reply) {
            (ClearStage::Inspecting { path }, ClearReply::Metadata(Ok(metadata))) => {
                if metadata.readonly {
                    Clearing {
                        stage: ClearStage::Writing { path, enter: self.rules.enters(metadata) },
                        ..self
                    }
                } else {
                    self.writable(path, self.rules.enters(metadata))
                }
            },
            (ClearStage::Inspecting { .. }, ClearReply::Metadata(Err(err))) => self.failed(err),
            (ClearStage::Writing { path, enter }, ClearReply::Written(Ok(_))) => self.writable(
                path,
                enter,
            ),
            (ClearStage::Writing { .. }, ClearReply::Written(Err(err))) => self.failed(err),
            (ClearStage::Opening { .. }, ClearReply::Opened(Ok(_))) => Clearing {
                depth: self.depth + 1,
                stage: ClearStage::Listing,
                ..self
            },
            (ClearStage::Opening { .. }, ClearReply::Opened(Err(err))) => self.failed(err),
            (ClearStage::Listing, ClearReply::Entry(None)) => (Clearing {
                depth: (self.depth - 1) as nat,
                ..self
            }).up(),
            (ClearStage::Listing, ClearReply::Entry(Some(Ok(path)))) => Clearing {
                stage: ClearStage::Inspecting { path },
                ..self
            },
            (ClearStage::Listing, ClearReply::Entry(Some(Err(err)))) => self.failed(err),
            _ => self,
        }
    }
}

/// Whether the attribute of an entry is to be taken off.
pub fn clear_readonly_with_metadata(metadata: &FileMeta) -> (needed: bool)
    ensures
        needed == metadata.readonly,
{
    metadata.readonly
}

impl ClearReadonly {
    /// What is to be done next; nothing once the clearing is finished.
    pub fn request(&self) -> (request: Option<ClearRequest>)
        ensures
            request == self@.asks(),
    {
        match &self.stage {
            ClearStage::Inspecting { path } => Some(
                ClearRequest::SymlinkMetadata { path: path.clone() },
            ),
            ClearStage::Writing { path, .. } => Some(
                ClearRequest::MakeWritable { path: path.clone() },
            ),
            ClearStage::Opening { path } => Some(ClearRequest::ReadDir { path: path.clone() }),
            ClearStage::Listing => Some(ClearRequest::NextEntry),
            ClearStage::Finished(_) => None,
        }
    }

    fn go_up(&mut self)
        ensures
            final(self)@ == old(self)@.up(),
    {
        if self.open.len() > 0 {
            self.stage = ClearStage::Listing;
        } else {
            self.stage = ClearStage::Finished(Ok(()));
        }
    }

    fn past_writing(&mut self, path: String, enter: bool)
        ensures
            final(self)@ == old(self)@.writable(path, enter),
    {
        if enter {
            self.stage = ClearStage::Opening { path };
        } else {
            self.go_up();
        }
    }

    /// Goes on with the answer to the last request.
    pub fn resume(&mut self, reply: ClearReply)
        requires
            old(self)@.valid(),
            old(self)@.awaits(reply),
        ensures
            final(self)@ == old(self)@.after(reply),
            final(self)@.valid(),
    {
        let mut stage = ClearStage::Listing;
        std::mem::swap(&mut stage, &mut self.stage);
        match (stage, reply) {
            (ClearStage::Inspecting { path }, ClearReply::Metadata(Ok(metadata))) => {
                let enter = self.recursive && metadata.is_dir && !is_directory_reparse_point(
                    self.platform,
                    &metadata,
                );
                if clear_readonly_with_metadata(&metadata) {
                    self.stage = ClearStage::Writing { path, enter };
                } else {
                    self.past_writing(path, enter);
                }
            },
            (ClearStage::Writing { path, enter }, ClearReply::Written(Ok(_))) => {
                self.past_writing(path, enter);
            },
            (ClearStage::Opening { path }, ClearReply::Opened(Ok(_))) => {
                self.open.push(path);
                self.stage = ClearStage::Listing;
            },
            (ClearStage::Listing, ClearReply::Entry(None)) => {
                self.open.pop();
                self.go_up();
            },
            (ClearStage::Listing, ClearReply::Entry(Some(Ok(path)))) => {
                self.stage = ClearStage::Inspecting { path };
            },
            (ClearStage::Inspecting { .. }, ClearReply::Metadata(Err(err))) => {
                self.stage = ClearStage::Finished(Err(err));
            },
            (ClearStage::Writing { .. }, ClearReply::Written(Err(err))) => {
                self.stage = ClearStage::Finished(Err(err));
            },
            (ClearStage::Opening { .. }, ClearReply::Opened(Err(err))) => {
                self.stage = ClearStage::Finished(Err(err));
            },
            (ClearStage::Listing, ClearReply::Entry(Some(Err(err)))) => {
                self.stage = ClearStage::Finished(Err(err));
            },
            (stage, _) => {
                self.stage = stage;
            },
        }
    }

    /// How the clearing ended.
    pub fn result(self) -> (result: Option<Result<(), IoError>>)
        ensures
            match self.stage {
                ClearStage::Finished(end) => result == Some(end),
                _ => result is None,
            },
    {
        match self.stage {
            ClearStage::Finished(result) => Some(result),
            _ => None,
        }
    }
}

/// Clears the attribute of one entry.
pub fn clear_readonly(platform: Platform, path: String) -> (clearing: ClearReadonly)
    ensures
        clearing@ == Clearing::fresh(platform, path, false),
        clearing@.valid(),
{
    ClearReadonly {
        platform,
        recursive: false,
        open: Vec::new(),
        stage: ClearStage::Inspecting { path },
    }
}

/// Clears the attribute of an entry and of everything below it.
pub fn clear_readonly_recursive(platform: Platform, path: String) -> (clearing: ClearReadonly)
    ensures
        clearing@ == Clearing::fresh(platform, path, true),
        clearing@.valid(),
{
    ClearReadonly {
        platform,
        recursive: true,
        open: Vec::new(),
        stage: ClearStage::Inspecting { path },
    }
}

// ---------------------------------------------------------------------------
// Whole clearings

/// What the file system has in store for one entry.
pub enum Found {
    /// The entry cannot be read from the listing.
    Unlisted { error: IoError },
    /// The entry at `path`.
    Listed { path: String, entry: Inspected },
}

/// What the file system has in store for an entry that is looked at.
pub enum Inspected {
    Unseen { error: IoError },
    /// How making it writable and opening it would go, and what is in it.
    Seen {
        metadata: FileMeta,
        writing: Result<(), IoError>,
        opening: Result<(), IoError>,
        entries: Seq<Found>,
    },
}

impl ClearRules {
    /// The first failure at an entry or below it.
    pub open spec fn entry_result(self, entry: Inspected) -> Result<(), IoError>
        decreases entry,
    {
        match entry {
            Inspected::Unseen { error } => Err(error),
            Inspected::Seen { metadata, writing, opening, entries } => if metadata.readonly
                && writing is Err {
                writing
            } else if self.enters(metadata) {
                match opening {
                    Err(error) => Err(error),
                    Ok(_) => self.entries_result(entries),
                }
            } else {
                Ok(())
            },
        }
    }

    /// The first failure among `entries`, in the order of the listing.
    pub open spec fn entries_result(self, entries: Seq<Found>) -> Result<(), IoError>
        decreases entries,
    {
        if entries.len() == 0 {
            Ok(())
        } else {
            match self.found_result(entries[0]) {
                Err(error) => Err(error),
                Ok(_) => self.entries_result(entries.drop_first()),
            }
        }
    }

    pub open spec fn found_result(self, found: Found) -> Result<(), IoError>
        decreases found,
    {
        match found {
            Found::Unlisted { error } => Err(error),
            Found::Listed { entry, .. } => self.entry_result(entry),
        }
    }

    /// The replies in the course of clearing an entry and what is below it, up
    /// to the first failure.
    pub open spec fn entry_replies(self, entry: Inspected) -> Seq<ClearReply>
        decreases entry,
    {
        match entry {
            Inspected::Unseen { error } => seq![ClearReply::Metadata(Err(error))],
            Inspected::Seen { metadata, writing, opening, entries } => {
                let looked = seq![ClearReply::Metadata(Ok(metadata))];
                let written = if metadata.readonly {
                    seq![ClearReply::Written(writing)]
                } else {
                    seq![]
                };
                let inside = if (metadata.readonly && writing is Err) || !self.enters(metadata) {
                    seq![]
                } else if opening is Err {
                    seq![ClearReply::Opened(opening)]
                } else {
                    seq![ClearReply::Opened(opening)] + self.entries_replies(entries)
                };
                looked + written + inside
            },
        }
    }

    pub open spec fn entries_replies(self, entries: Seq<Found>) -> Seq<ClearReply>
        decreases entries,
    {
        if entries.len() == 0 {
            seq![ClearReply::Entry(None)]
        } else {
            let first = match entries[0] {
                Found::Unlisted { error } => seq![ClearReply::Entry(Some(Err(error)))],
                Found::Listed { path, entry } => seq![ClearReply::Entry(Some(Ok(path)))]
                    + self.entry_replies(entry),
            };
            if self.found_result(entries[0]) is Err {
                first
            } else {
                first + self.entries_replies(entries.drop_first())
            }
        }
    }
}

impl ClearRules {
    /// What is asked for to clear the entry at `path` and what is below it, up to
    /// the first failure: every entry is looked at, and made writable if it is
    /// read-only.
    pub open spec fn entry_requests(self, path: String, entry: Inspected) -> Seq<ClearRequest>
        decreases entry,
    {
        let looked = seq![ClearRequest::SymlinkMetadata { path }];
        match entry {
            Inspected::Unseen { .. } => looked,
            Inspected::Seen { metadata, writing, opening, entries } => {
                let written = if metadata.readonly {
                    seq![ClearRequest::MakeWritable { path }]
                } else {
                    seq![]
                };
                let inside = if (metadata.readonly && writing is Err) || !self.enters(metadata) {
                    seq![]
                } else if opening is Err {
                    seq![ClearRequest::ReadDir { path }]
                } else {
                    seq![ClearRequest::ReadDir { path }] + self.entries_requests(entries)
                };
                looked + written + inside
            },
        }
    }

    pub open spec fn entries_requests(self, entries: Seq<Found>) -> Seq<ClearRequest>
        decreases entries,
    {
        if entries.len() == 0 {
            seq![ClearRequest::NextEntry]
        } else {
            let first = match entries[0] {
                Found::Unlisted { .. } => seq![ClearRequest::NextEntry],
                Found::Listed { path, entry } => seq![ClearRequest::NextEntry]
                    + self.entry_requests(path, entry),
            };
            if self.found_result(entries[0]) is Err {
                first
            } else {
                first + self.entries_requests(entries.drop_first())
            }
        }
    }
}

impl Clearing {
    /// The clearing after all of `replies`.
    pub open spec fn run(self, replies: Seq<ClearReply>) -> Clearing
        decreases replies.len(),
    {
        if replies.len() == 0 {
            self
        } else {
            self.after(replies[0]).run(replies.drop_first())
        }
    }

    /// Each of `replies` answers what is asked for when it comes.
    pub open spec fn accepts(self, replies: Seq<ClearReply>) -> bool
        decreases replies.len(),
    {
        replies.len() > 0 ==> self.awaits(replies[0]) && self.after(replies[0]).accepts(
            replies.drop_first(),
        )
    }

    /// What is asked for, one after the other, where `replies` come back.
    pub open spec fn requests(self, replies: Seq<ClearReply>) -> Seq<ClearRequest>
        decreases replies.len(),
    {
        if replies.len() == 0 {
            seq![]
        } else {
            seq![self.asks()->0] + self.after(replies[0]).requests(replies.drop_first())
        }
    }

    /// The clearing at the end of an entry that came to `result`.
    pub open spec fn ended(self, result: Result<(), IoError>) -> ClearStage {
        match result {
            Ok(_) => self.up().stage,
            Err(error) => ClearStage::Finished(Err(error)),
        }
    }

    /// Two clearings under the same rules, equally deep.
    pub open spec fn alike(self, other: Clearing) -> bool {
        &&& self.rules == other.rules
        &&& self.depth == other.depth
    }
}

proof fn lemma_run_in_parts(clearing: Clearing, first: Seq<ClearReply>, second: Seq<ClearReply>)
    ensures
        clearing.run(first + second) == clearing.run(first).run(second),
        clearing.accepts(first) && clearing.run(first).accepts(second) ==> clearing.accepts(
            first + second,
        ),
        clearing.requests(first + second) == clearing.requests(first) + clearing.run(
            first,
        ).requests(second),
    decreases first.len(),
{
    if first.len() == 0 {
        assert(first + second =~= second);
        assert(clearing.requests(first) + clearing.requests(second) =~= clearing.requests(second));
    } else {
        assert((first + second).drop_first() =~= first.drop_first() + second);
        lemma_run_in_parts(clearing.after(first[0]), first.drop_first(), second);
        assert(clearing.requests(first + second) =~= clearing.requests(first) + clearing.run(
            first,
        ).requests(second));
    }
}

proof fn lemma_one_reply(clearing: Clearing, reply: ClearReply)
    ensures
        clearing.run(seq![reply]) == clearing.after(reply),
        clearing.accepts(seq![reply]) == clearing.awaits(reply),
        clearing.requests(seq![reply]) == seq![clearing.asks()->0],
{
    reveal_with_fuel(Clearing::run, 2);
    reveal_with_fuel(Clearing::accepts, 2);
    reveal_with_fuel(Clearing::requests, 2);
    assert(seq![reply].drop_first() =~= seq![]);
    assert(clearing.requests(seq![reply]) =~= seq![clearing.asks()->0]);
}

proof fn lemma_entry(clearing: Clearing, path: String, entry: Inspected)
    requires
        clearing.stage == (ClearStage::Inspecting { path }),
    ensures
        clearing.accepts(clearing.rules.entry_replies(entry)),
        clearing.run(clearing.rules.entry_replies(entry)).stage == clearing.ended(
            clearing.rules.entry_result(entry),
        ),
        clearing.rules.entry_result(entry) is Ok ==> clearing.run(
            clearing.rules.entry_replies(entry),
        ).alike(clearing),
        clearing.requests(clearing.rules.entry_replies(entry)) == clearing.rules.entry_requests(
            path,
            entry,
        ),
    decreases entry,
{
    match entry {
        Inspected::Unseen { error } => {
            lemma_one_reply(clearing, ClearReply::Metadata(Err(error)));
        },
        Inspected::Seen { metadata, writing, opening, entries } => {
            let looked = ClearReply::Metadata(Ok(metadata));
            lemma_one_reply(clearing, looked);
            let seen = clearing.after(looked);
            let written = if metadata.readonly {
                seq![ClearReply::Written(writing)]
            } else {
                seq![]
            };
            let writable = if metadata.readonly {
                seen.after(ClearReply::Written(writing))
            } else {
                seen
            };
            if metadata.readonly {
                lemma_one_reply(seen, ClearReply::Written(writing));
            }
            let asked = if metadata.readonly {
                seq![ClearRequest::MakeWritable { path }]
            } else {
                seq![]
            };
            assert(seen.requests(written) =~= asked);
            assert(seen.run(written) == writable);
            assert(seen.accepts(written));
            lemma_run_in_parts(clearing, seq![looked], written);
            let so_far = seq![looked] + written;
            if (metadata.readonly && writing is Err) || !clearing.rules.enters(metadata) {
                assert(so_far + seq![] =~= so_far);
                assert(clearing.requests(so_far) + seq![] =~= clearing.requests(so_far));
            } else {
                let opened = ClearReply::Opened(opening);
                lemma_one_reply(writable, opened);
                lemma_run_in_parts(clearing, so_far, seq![opened]);
                if opening is Ok {
                    let listing = writable.after(opened);
                    lemma_entries(listing, entries);
                    lemma_run_in_parts(
                        clearing,
                        so_far + seq![opened],
                        clearing.rules.entries_replies(entries),
                    );
                    assert(so_far + (seq![opened] + clearing.rules.entries_replies(entries)) =~= so_far
                        + seq![opened] + clearing.rules.entries_replies(entries));
                    let inside = clearing.rules.entries_requests(entries);
                    let before = clearing.requests(so_far);
                    let opens = seq![ClearRequest::ReadDir { path }];
                    assert(before + opens + inside =~= before + (opens + inside));
                }
            }
        },
    }
}

proof fn lemma_entries(clearing: Clearing, entries: Seq<Found>)
    requires
        clearing.stage is Listing,
        clearing.depth > 0,
    ensures
        clearing.accepts(clearing.rules.entries_replies(entries)),
        ({
            let outer = Clearing { depth: (clearing.depth - 1) as nat, ..clearing };
            let end = clearing.run(clearing.rules.entries_replies(entries));
            &&& end.stage == outer.ended(clearing.rules.entries_result(entries))
            &&& clearing.rules.entries_result(entries) is Ok ==> end.alike(outer)
        }),
        clearing.requests(clearing.rules.entries_replies(entries))
            == clearing.rules.entries_requests(entries),
    decreases entries,
{
    if entries.len() == 0 {
        lemma_one_reply(clearing, ClearReply::Entry(None));
    } else {
        let found = entries[0];
        match found {
            Found::Unlisted { error } => {
                lemma_one_reply(clearing, ClearReply::Entry(Some(Err(error))));
            },
            Found::Listed { path, entry } => {
                let listed = ClearReply::Entry(Some(Ok(path)));
                lemma_one_reply(clearing, listed);
                let looking = clearing.after(listed);
                assert(decreases_to!(entries => found));
                assert(decreases_to!(found => entry));
                lemma_entry(looking, path, entry);
                lemma_run_in_parts(clearing, seq![listed], clearing.rules.entry_replies(entry));
                if clearing.rules.found_result(found) is Ok {
                    let first = seq![listed] + clearing.rules.entry_replies(entry);
                    let next = clearing.run(first);
                    lemma_entries(next, entries.drop_first());
                    lemma_run_in_parts(
                        clearing,
                        first,
                        clearing.rules.entries_replies(entries.drop_first()),
                    );
                }
            },
        }
    }
}

/// A clearing looks at the entry and at everything below it, in the order of the
/// listings, and makes writable what is read-only. It ends with the first
/// failure, and succeeds where there is none. Links are not entered.
pub proof fn law_clearing_reaches_everything_up_to_a_failure(
    platform: Platform,
    path: String,
    recursive: bool,
    entry: Inspected,
)
    ensures
        ({
            let clearing = Clearing::fresh(platform, path, recursive);
            let replies = clearing.rules.entry_replies(entry);
            &&& clearing.accepts(replies)
            &&& clearing.requests(replies) == clearing.rules.entry_requests(path, entry)
            &&& clearing.run(replies).stage == ClearStage::Finished(clearing.rules.entry_result(entry))
        }),
{
    let clearing = Clearing::fresh(platform, path, recursive);
    lemma_entry(clearing, path, entry);
    if clearing.rules.entry_result(entry) is Ok {
        assert(clearing.rules.entry_result(entry)->Ok_0 == ());
    }
}

// ---------------------------------------------------------------------------
// Single steps

/// An entry is made writable exactly if it is read-only. It is entered afterwards
/// exactly if everything below is meant too and it is a directory that leads
/// nowhere else: no link, and on Windows without the bit for reparse points.
pub proof fn law_readonly_entries_are_made_writable(
    clearing: Clearing,
    path: String,
    metadata: FileMeta,
)
    requires
        clearing.stage == (ClearStage::Inspecting { path }),
    ensures
        clearing.asks() == Some(ClearRequest::SymlinkMetadata { path }),
        ({
            let elsewhere = metadata.is_symlink || (clearing.rules.platform is Windows
                && metadata.attributes & 0x0400u32 != 0);
            let enters = clearing.rules.recursive && metadata.is_dir && !elsewhere;
            let seen = clearing.after(ClearReply::Metadata(Ok(metadata)));
            let writable = if metadata.readonly {
                seen.after(ClearReply::Written(Ok(())))
            } else {
                seen
            };
            &&& metadata.readonly ==> seen == (Clearing { stage: seen.stage, ..clearing })
                && seen.asks() == Some(ClearRequest::MakeWritable { path })
            &&& writable == (Clearing { stage: writable.stage, ..clearing })
            &&& enters ==> writable.asks() == Some(ClearRequest::ReadDir { path })
            &&& !enters && clearing.depth > 0 ==> writable.asks() == Some(ClearRequest::NextEntry)
            &&& !enters && clearing.depth == 0 ==> writable.stage == ClearStage::Finished(Ok(()))
        }),
{
}

/// Whatever fails ends the clearing with that failure.
pub proof fn law_failure_ends_the_clearing(clearing: Clearing, err: IoError)
    ensures
        ({
            let end = ClearStage::Finished(Err(err));
            &&& clearing.stage is Inspecting ==> clearing.after(
                ClearReply::Metadata(Err(err)),
            ).stage == end
            &&& clearing.stage is Writing ==> clearing.after(ClearReply::Written(Err(err))).stage
                == end
            &&& clearing.stage is Opening ==> clearing.after(ClearReply::Opened(Err(err))).stage
                == end
            &&& clearing.stage is Listing ==> clearing.after(
                ClearReply::Entry(Some(Err(err))),
            ).stage == end
        }),
{
}

/// A directory that is open is gone through to its last entry, and then the one
/// around it.
pub proof fn law_clearing_goes_through_directories(clearing: Clearing, path: String)
    ensures
        clearing.stage is Opening ==> clearing.after(ClearReply::Opened(Ok(()))) == (Clearing {
            depth: clearing.depth + 1,
            stage: ClearStage::Listing,
            ..clearing
        }),
        clearing.stage is Listing && clearing.depth > 0 ==> {
            let next = clearing.after(ClearReply::Entry(Some(Ok(path))));
            &&& clearing.asks() == Some(ClearRequest::NextEntry)
            &&& next == (Clearing { stage: next.stage, ..clearing })
            &&& next.asks() == Some(ClearRequest::SymlinkMetadata { path })
            &&& clearing.after(ClearReply::Entry(None)) == (Clearing {
                depth: (clearing.depth - 1) as nat,
                stage: if clearing.depth > 1 {
                    ClearStage::Listing
                } else {
                    ClearStage::Finished(Ok(()))
                },
                ..clearing
            })
        },
{
}

/// A clearing begins with a look at its path, and goes below it exactly if it is
/// meant to.
pub proof fn law_clearing_begins_with_a_look(platform: Platform, path: String, recursive: bool)
    ensures
        ({
            let clearing = Clearing::fresh(platform, path, recursive);
            &&& clearing.stage == (ClearStage::Inspecting { path })
            &&& clearing.rules.platform == platform
            &&& clearing.rules.recursive == recursive
            &&& clearing.depth == 0
        }),
{
}

} // verus!
