//! Moving a list of entries into one directory, and what a run comes to.
use crate::cli::Cli;
use crate::config::{configured_target_dir, resolve_move_target_dir, MoveConfig, TargetDir};
use crate::fault::{ErrorReport, IoError};
use crate::text::{decimal, decimal_text, texts};
use vstd::prelude::*;

verus! {

/// What moving a list of entries came to.
#[derive(Debug)]
pub struct MoveOutcome<F> {
    pub total: usize,
    pub succeeded: usize,
    pub failed: usize,
    pub failures: Vec<F>,
}

/// Where a batch stands.
#[derive(Debug, Clone, Copy, PartialEq, Eq, Structural)]
pub enum BatchStage {
    /// The target directory is being created.
    Preparing,
    /// The next source is being moved.
    Moving,
    Finished,
}

/// The moving of a list of entries into one directory.
#[derive(Debug)]
pub struct Batch<F> {
    pub target_dir: String,
    pub dry_run: bool,
    pub sources: Vec<String>,
    /// How many sources have been dealt with.
    pub next: usize,
    pub succeeded: usize,
    pub failures: Vec<F>,
    pub stage: BatchStage,
}

/// What a batch asks for.
#[derive(Debug)]
pub enum BatchRequest {
    CreateDirAll { path: String },
    Move { source: String },
}

/// How many moves went well.
pub open spec fn moved_in<F>(results: Seq<Result<(), F>>) -> nat
    decreases results.len(),
{
    if results.len() == 0 {
        0
    } else {
        moved_in(results.drop_last()) + if results.last() is Ok {
            1nat
        } else {
            0
        }
    }
}

/// What the failed moves left to report, in order.
pub open spec fn failures_in<F>(results: Seq<Result<(), F>>) -> Seq<F>
    decreases results.len(),
{
    if results.len() == 0 {
        seq![]
    } else {
        match results.last() {
            Ok(_) => failures_in(results.drop_last()),
            Err(failure) => failures_in(results.drop_last()).push(failure),
        }
    }
}

/// Which moves failed, by their numbers, in order.
pub open spec fn failed_in<F>(results: Seq<Result<(), F>>) -> Seq<int>
    decreases results.len(),
{
    if results.len() == 0 {
        seq![]
    } else if results.last() is Ok {
        failed_in(results.drop_last())
    } else {
        failed_in(results.drop_last()).push(results.len() - 1)
    }
}

impl<F> Batch<F> {
    /// The sources are dealt with in order, each one counted once; the target
    /// directory comes first, except in a dry run.
    pub open spec fn valid(self) -> bool {
        &&& self.next == self.succeeded + self.failures@.len()
        &&& match self.stage {
            BatchStage::Preparing => self.next == 0 && self.sources@.len() > 0 && !self.dry_run,
            BatchStage::Moving => self.next < self.sources@.len(),
            BatchStage::Finished => self.next == self.sources@.len(),
        }
    }

    /// Whether the first sources were moved with these results.
    pub open spec fn counts(self, results: Seq<Result<(), F>>) -> bool {
        &&& self.next == results.len() <= self.sources@.len()
        &&& self.succeeded == moved_in(results)
        &&& self.failures@ == failures_in(results)
    }

    /// The batch with its target directory there, if it needs one.
    pub open spec fn ready(self) -> Batch<F> {
        Batch {
            stage: if self.stage == BatchStage::Preparing {
                BatchStage::Moving
            } else {
                self.stage
            },
            ..self
        }
    }

    /// Whether the batch has come to `next` by counting the move of one source.
    pub open spec fn recorded(self, result: Result<(), F>, next: Batch<F>) -> bool {
        &&& next.target_dir == self.target_dir
        &&& next.dry_run == self.dry_run
        &&& next.sources == self.sources
        &&& next.next == self.next + 1
        &&& next.stage == if self.next + 1 == self.sources@.len() {
            BatchStage::Finished
        } else {
            BatchStage::Moving
        }
        &&& match result {
            Ok(_) => next.succeeded == self.succeeded + 1 && next.failures@ == self.failures@,
            Err(failure) => next.succeeded == self.succeeded && next.failures@
                == self.failures@.push(failure),
        }
    }

    /// What the batch comes to.
    pub open spec fn comes_to(self) -> MoveOutcome<F> {
        MoveOutcome {
            total: self.sources@.len() as usize,
            succeeded: self.succeeded,
            failed: self.failures@.len() as usize,
            failures: self.failures,
        }
    }

    /// What is asked for next: nothing at all where there are no sources.
    pub open spec fn asks(self) -> Option<BatchRequest> {
        match self.stage {
            BatchStage::Preparing => Some(BatchRequest::CreateDirAll { path: self.target_dir }),
            BatchStage::Moving => Some(
                BatchRequest::Move { source: self.sources@[self.next as int] },
            ),
            BatchStage::Finished => None,
        }
    }

    /// A batch that has not begun: without sources there is nothing to do, and a
    /// dry run needs no target directory.
    pub open spec fn fresh(self, target_dir: String, sources: Vec<String>, dry_run: bool) -> bool {
        &&& self.valid()
        &&& self.counts(seq![])
        &&& self.target_dir == target_dir
        &&& self.sources == sources
        &&& self.dry_run == dry_run
        &&& self.stage == if sources@.len() == 0 {
            BatchStage::Finished
        } else if dry_run {
            BatchStage::Moving
        } else {
            BatchStage::Preparing
        }
    }

    /// A batch that has not begun.
    pub fn new(target_dir: String, sources: Vec<String>, dry_run: bool) -> (batch: Batch<F>)
        ensures
            batch.fresh(target_dir, sources, dry_run),
    {
        let stage = if sources.len() == 0 {
            BatchStage::Finished
        } else if dry_run {
            BatchStage::Moving
        } else {
            BatchStage::Preparing
        };
        Batch { target_dir, dry_run, sources, next: 0, succeeded: 0, failures: Vec::new(), stage }
    }

    /// What is to be done next; nothing once the batch is finished.
    pub fn request(&self) -> (request: Option<BatchRequest>)
        requires
            self.valid(),
        ensures
            request == self.asks(),
    {
        match self.stage {
            BatchStage::Preparing => Some(
                BatchRequest::CreateDirAll { path: self.target_dir.clone() },
            ),
            BatchStage::Moving => Some(
                BatchRequest::Move { source: self.sources[self.next].clone() },
            ),
            BatchStage::Finished => None,
        }
    }

    /// Goes on once the target directory is there, or gives up without it.
    pub fn prepared(self, created: Result<(), IoError>) -> (batch: Result<Batch<F>, ErrorReport>)
        requires
            self.valid(),
            self.stage == BatchStage::Preparing,
        ensures
            match created {
                Ok(_) => batch == Ok::<Batch<F>, ErrorReport>(self.ready()) && self.ready().valid(),
                Err(err) => batch matches Err(report) && report.cause == Some(err.text)
                    && report.message@ == "failed to create move target directory "@
                    + self.target_dir@,
            },
    {
        match created {
            Ok(_) => Ok(Batch { stage: BatchStage::Moving, ..self }),
            Err(err) => {
                let message = "failed to create move target directory ".to_owned().concat(
                    self.target_dir.as_str(),
                );
                Err(ErrorReport::because(message, err.text))
            },
        }
    }

    /// Counts the move of the next source.
    pub fn record(&mut self, result: Result<(), F>)
        requires
            old(self).valid(),
            old(self).stage == BatchStage::Moving,
        ensures
            final(self).valid(),
            old(self).recorded(result, *final(self)),
            forall|results: Seq<Result<(), F>>| #[trigger]
                old(self).counts(results) ==> final(self).counts(results.push(result)),
    {
        let ghost whole = result;
        let total: usize = self.sources.len();
        match result {
            Ok(_) => {
                self.succeeded += 1;
            },
            Err(failure) => {
                self.failures.push(failure);
            },
        }
        self.next += 1;
        if self.next == total {
            self.stage = BatchStage::Finished;
        }
        proof {
            assert forall|results: Seq<Result<(), F>>| #[trigger]
                old(self).counts(results) implies self.counts(results.push(whole)) by {
                assert(results.push(whole).drop_last() =~= results);
            }
        }
    }

    /// What the batch came to.
    pub fn outcome(self) -> (outcome: MoveOutcome<F>)
        ensures
            outcome == self.comes_to(),
    {
        let total: usize = self.sources.len();
        let failed: usize = self.failures.len();
        MoveOutcome { total, succeeded: self.succeeded, failed, failures: self.failures }
    }
}

/// The start of a run, which may need the config file to know where to move to.
#[derive(Debug)]
pub enum MoveRun<F> {
    Ready(Batch<F>),
    /// The config file at `path` names the target directory.
    NeedsConfig { path: String, sources: Vec<String>, dry_run: bool },
}

impl<F> MoveRun<F> {
    /// Whether the run has started with what the command line gives: a target
    /// directory there wins over the config file, and must not be empty.
    pub open spec fn started(
        run: Result<MoveRun<F>, ErrorReport>,
        cli: Cli,
        sources: Vec<String>,
        target_dir: Option<String>,
    ) -> bool {
        match target_dir {
            Some(dir) => if dir@.len() == 0 {
                run matches Err(report) && report.cause is None && report.message@
                    == "target directory argument cannot be empty"@
            } else {
                run matches Ok(MoveRun::Ready(batch)) && batch.fresh(dir, sources, cli.dry_run)
            },
            None => run == Ok::<MoveRun<F>, ErrorReport>(
                MoveRun::NeedsConfig { path: cli.config, sources, dry_run: cli.dry_run },
            ),
        }
    }

    /// Starts a run.
    pub fn start(cli: &Cli, sources: Vec<String>, target_dir: Option<String>) -> (run: Result<
        MoveRun<F>,
        ErrorReport,
    >)
        ensures
            MoveRun::started(run, *cli, sources, target_dir),
    {
        match resolve_move_target_dir(&cli.config, target_dir) {
            Err(report) => Err(report),
            Ok(TargetDir::Given(dir)) => Ok(
                MoveRun::Ready(Batch::new(dir, sources, cli.dry_run)),
            ),
            Ok(TargetDir::InConfig(path)) => Ok(
                MoveRun::NeedsConfig { path, sources, dry_run: cli.dry_run },
            ),
        }
    }

    /// Goes on with what the config file holds.
    pub fn configured(sources: Vec<String>, dry_run: bool, config: MoveConfig) -> (batch: Result<
        Batch<F>,
        ErrorReport,
    >)
        ensures
            match config.move_target_dir {
                Some(dir) if dir@.len() > 0 => batch matches Ok(batch) && batch.fresh(
                    dir,
                    sources,
                    dry_run,
                ),
                _ => batch matches Err(report) && report.cause is None && report.message@
                    == "move target directory is not set; pass --target-dir or add move_target_dir to config"@,
            },
    {
        match configured_target_dir(config) {
            Err(report) => Err(report),
            Ok(dir) => Ok(Batch::new(dir, sources, dry_run)),
        }
    }
}

/// A finished batch has dealt with every source: those that were moved and those
/// that failed add up to the total, and each failure is reported, in order.
pub proof fn law_batch_adds_up<F>(batch: Batch<F>, results: Seq<Result<(), F>>)
    requires
        batch.valid(),
        batch.stage == BatchStage::Finished,
        batch.counts(results),
    ensures
        results.len() == batch.sources@.len(),
        batch.succeeded + batch.failures@.len() == batch.sources@.len(),
        batch.succeeded == moved_in(results),
        batch.failures@ == failures_in(results),
{
}

/// The numbers of the failed moves are those of exactly the moves that failed, in
/// order, and the failures are theirs.
pub proof fn law_failures_are_those_of_the_failed_moves<F>(results: Seq<Result<(), F>>)
    ensures
        failed_in(results).len() == failures_in(results).len(),
        forall|i: int|
            0 <= i < results.len() ==> (results[i] is Err <==> #[trigger] failed_in(
                results,
            ).contains(i)),
        forall|k: int|
            0 <= k < failed_in(results).len() ==> {
                let i = #[trigger] failed_in(results)[k];
                0 <= i < results.len() && results[i] == Err::<(), F>(failures_in(results)[k])
            },
        forall|k: int, l: int|
            0 <= k < l < failed_in(results).len() ==> #[trigger] failed_in(results)[k]
                < #[trigger] failed_in(results)[l],
    decreases results.len(),
{
    if results.len() > 0 {
        let before = results.drop_last();
        let numbers = failed_in(results);
        let earlier = failed_in(before);
        law_failures_are_those_of_the_failed_moves(before);
        assert forall|k: int| 0 <= k < numbers.len() implies {
            let i = #[trigger] numbers[k];
            0 <= i < results.len() && results[i] == Err::<(), F>(failures_in(results)[k])
        } by {
            if k < earlier.len() {
                assert(numbers[k] == earlier[k]);
                assert(before[earlier[k]] == results[earlier[k]]);
            }
        }
        assert forall|i: int| 0 <= i < results.len() implies (results[i] is Err
            <==> #[trigger] numbers.contains(i)) by {
            if i < before.len() {
                assert(before[i] == results[i]);
                assert(before[i] is Err <==> earlier.contains(i));
                if earlier.contains(i) {
                    let k = choose|k: int| 0 <= k < earlier.len() && earlier[k] == i;
                    assert(numbers[k] == i);
                }
                if numbers.contains(i) {
                    let k = choose|k: int| 0 <= k < numbers.len() && numbers[k] == i;
                    assert(earlier[k] == i);
                }
            } else if results[i] is Err {
                assert(numbers[numbers.len() - 1] == i);
            }
        }
        assert forall|k: int, l: int| 0 <= k < l < numbers.len() implies #[trigger] numbers[k]
            < #[trigger] numbers[l] by {
            assert(numbers[k] == earlier[k]);
            if l < earlier.len() {
                assert(numbers[l] == earlier[l]);
            }
        }
    }
}

/// Whether a batch that had not begun went through `states`, from its first move
/// to its end, while its moves ended with `results`.
pub open spec fn goes_through<F>(
    batch: Batch<F>,
    states: Seq<Batch<F>>,
    results: Seq<Result<(), F>>,
) -> bool {
    &&& batch.fresh(batch.target_dir, batch.sources, batch.dry_run)
    &&& results.len() == batch.sources@.len()
    &&& states.len() == results.len() + 1
    &&& states[0] == batch.ready()
    &&& forall|i: int|
        0 <= i < results.len() ==> (#[trigger] states[i]).recorded(results[i], states[i + 1])
}

proof fn lemma_so_far<F>(
    batch: Batch<F>,
    states: Seq<Batch<F>>,
    results: Seq<Result<(), F>>,
    n: int,
)
    requires
        goes_through(batch, states, results),
        0 <= n <= results.len(),
    ensures
        states[n].valid(),
        states[n].counts(results.take(n)),
        states[n].stage == (if n == results.len() {
            BatchStage::Finished
        } else {
            BatchStage::Moving
        }),
        states[n].target_dir == batch.target_dir,
        states[n].dry_run == batch.dry_run,
        states[n].sources == batch.sources,
    decreases n,
{
    if n == 0 {
        assert(results.take(0) =~= seq![]);
    } else {
        lemma_so_far(batch, states, results, n - 1);
        assert(states[n - 1].recorded(results[n - 1], states[n - 1 + 1]));
        assert(results.take(n).drop_last() =~= results.take(n - 1));
        assert(results.take(n).last() == results[n - 1]);
    }
}

/// Once its target directory is there, a batch tries every source, in order,
/// whatever became of those before it, and is then finished. Its counts add up, and its failures are those of the moves
/// that failed.
pub proof fn law_batch_tries_every_source<F>(
    batch: Batch<F>,
    states: Seq<Batch<F>>,
    results: Seq<Result<(), F>>,
)
    requires
        goes_through(batch, states, results),
    ensures
        forall|i: int|
            0 <= i < results.len() ==> {
                let state = #[trigger] states[i];
                &&& state.valid()
                &&& state.stage == BatchStage::Moving
                &&& state.next == i
                &&& state.target_dir == batch.target_dir
                &&& state.dry_run == batch.dry_run
                &&& state.sources == batch.sources
                &&& state.asks() == Some(
                    BatchRequest::Move { source: batch.sources@[i] },
                )
            },
        ({
            let end = states.last();
            let outcome = end.comes_to();
            &&& end.valid()
            &&& end.stage == BatchStage::Finished
            &&& outcome.total == results.len()
            &&& outcome.succeeded == moved_in(results)
            &&& outcome.succeeded + outcome.failed == outcome.total
            &&& outcome.failed == outcome.failures@.len()
            &&& outcome.failures@ == failures_in(results)
        }),
{
    assert forall|i: int| 0 <= i < results.len() implies {
        let state = #[trigger] states[i];
        &&& state.valid()
        &&& state.stage == BatchStage::Moving
        &&& state.next == i
        &&& state.target_dir == batch.target_dir
        &&& state.dry_run == batch.dry_run
        &&& state.sources == batch.sources
        &&& state.asks() == Some(BatchRequest::Move { source: batch.sources@[i] })
    } by {
        lemma_so_far(batch, states, results, i);
    }
    lemma_so_far(batch, states, results, results.len() as int);
    assert(results.take(results.len() as int) =~= results);
}

/// A dry run creates no directory: all that it asks for is one source after the
/// other.
pub proof fn law_dry_run_creates_nothing<F>(batch: Batch<F>)
    requires
        batch.valid(),
        batch.dry_run,
    ensures
        batch.asks() == (if batch.next < batch.sources@.len() {
            Some(BatchRequest::Move { source: batch.sources@[batch.next as int] })
        } else {
            None
        }),
{
}

/// Lines, each with its end.
pub open spec fn listed(lines: Seq<Seq<char>>) -> Seq<char>
    decreases lines.len(),
{
    if lines.len() == 0 {
        seq![]
    } else {
        listed(lines.drop_last()) + lines.last() + "\n"@
    }
}

/// The counts at the head of a summary of moves.
pub open spec fn move_counts<F>(outcome: MoveOutcome<F>, dry_run: bool, mode: Seq<char>) -> Seq<
    char,
> {
    "Mode: "@ + (if dry_run {
        "dry-run (nothing was moved)"@
    } else {
        mode
    }) + "\nTotal: "@ + decimal(outcome.total as nat) + "\nSucceeded: "@ + decimal(
        outcome.succeeded as nat,
    ) + "\nFailed: "@ + decimal(outcome.failed as nat) + "\n"@
}

/// What moves came to, as the user sees it: the counts, and under `title` one of
/// `lines` for each failure.
pub open spec fn move_summary<F>(
    outcome: MoveOutcome<F>,
    dry_run: bool,
    mode: Seq<char>,
    title: Seq<char>,
    lines: Seq<Seq<char>>,
) -> Seq<char> {
    let counts = move_counts(outcome, dry_run, mode);
    if lines.len() == 0 {
        counts
    } else {
        counts + "\n"@ + title + "\n"@ + listed(lines)
    }
}

/// Writes what moves came to.
pub fn move_summary_text<F>(
    outcome: &MoveOutcome<F>,
    dry_run: bool,
    mode: &str,
    title: &str,
    lines: &Vec<String>,
) -> (out: String)
    ensures
        out@ == move_summary(*outcome, dry_run, mode@, title@, texts(lines@)),
{
    let mode = if dry_run {
        "dry-run (nothing was moved)"
    } else {
        mode
    };
    let total = decimal_text(outcome.total as u64);
    let succeeded = decimal_text(outcome.succeeded as u64);
    let failed = decimal_text(outcome.failed as u64);
    let counts = "Mode: ".to_owned().concat(mode).concat("\nTotal: ").concat(total.as_str()).concat(
        "\nSucceeded: ",
    ).concat(succeeded.as_str()).concat("\nFailed: ").concat(failed.as_str()).concat("\n");
    if lines.len() == 0 {
        return counts;
    }
    let mut out = counts.concat("\n").concat(title).concat("\n");
    let ghost start = out@;
    let ghost all = texts(lines@);
    let mut i: usize = 0;
    assert(all.take(0) =~= seq![]);
    assert(start + seq![] =~= start);
    while i < lines.len()
        invariant
            i <= lines.len(),
            all == texts(lines@),
            out@ == start + listed(all.take(i as int)),
        decreases lines.len() - i,
    {
        out.append(lines[i].as_str());
        out.append("\n");
        assert(all.take(i as int + 1).drop_last() =~= all.take(i as int));
        assert(all.take(i as int + 1).last() == all[i as int]);
        assert(start + (listed(all.take(i as int)) + all[i as int] + "\n"@) =~= start + listed(
            all.take(i as int),
        ) + all[i as int] + "\n"@);
        i += 1;
    }
    assert(all.take(i as int) =~= all);
    out
}

/// The status that the program ends with: nothing failed, something failed, or
/// the run as a whole was not possible.
pub fn exit_code(failed: &Result<usize, ErrorReport>) -> (code: i32)
    ensures
        code == (match *failed {
            Ok(n) => if n > 0 {
                1i32
            } else {
                0i32
            },
            Err(_) => 2i32,
        }),
{
    match failed {
        Ok(n) => if *n > 0 {
            1
        } else {
            0
        },
        Err(_) => 2,
    }
}

// ---------------------------------------------------------------------------
// Single steps

/// One more move adds its failure to the list, or one to the moves that went well.
pub proof fn law_each_move_counts<F>(results: Seq<Result<(), F>>, failure: F)
    ensures
        moved_in(Seq::<Result<(), F>>::empty()) == 0,
        failures_in(Seq::<Result<(), F>>::empty()) == Seq::<F>::empty(),
        moved_in(results.push(Ok(()))) == moved_in(results) + 1,
        moved_in(results.push(Err(failure))) == moved_in(results),
        failures_in(results.push(Ok(()))) == failures_in(results),
        failures_in(results.push(Err(failure))) == failures_in(results).push(failure),
{
    assert(results.push(Ok(())).drop_last() =~= results);
    assert(results.push(Err(failure)).drop_last() =~= results);
}

/// A batch with sources begins with its target directory, or in a dry run with its
/// first source; one without sources is finished.
pub proof fn law_batch_begins_with_its_directory<F>(
    batch: Batch<F>,
    target_dir: String,
    sources: Vec<String>,
    dry_run: bool,
)
    requires
        batch.fresh(target_dir, sources, dry_run),
    ensures
        batch.next == 0 && batch.succeeded == 0 && batch.failures@.len() == 0,
        batch.target_dir == target_dir && batch.sources == sources && batch.dry_run == dry_run,
        batch.asks() == (if sources@.len() == 0 {
            None
        } else if dry_run {
            Some(BatchRequest::Move { source: sources@[0] })
        } else {
            Some(BatchRequest::CreateDirAll { path: target_dir })
        }),
        sources@.len() > 0 ==> batch.ready().asks() == Some(
            BatchRequest::Move { source: sources@[0] },
        ),
        batch.ready() == (Batch { stage: batch.ready().stage, ..batch }),
{
}

/// A batch that counts one more move goes on with the next source, and is finished
/// after the last.
pub proof fn law_batch_goes_on_with_the_next_source<F>(
    batch: Batch<F>,
    result: Result<(), F>,
    next: Batch<F>,
)
    requires
        batch.valid(),
        batch.stage == BatchStage::Moving,
        batch.recorded(result, next),
    ensures
        next.target_dir == batch.target_dir && next.sources == batch.sources && next.dry_run
            == batch.dry_run,
        next.asks() == (if batch.next + 1 < batch.sources@.len() {
            Some(BatchRequest::Move { source: batch.sources@[batch.next + 1] })
        } else {
            None
        }),
        result is Ok ==> next.succeeded == batch.succeeded + 1 && next.failures@ == batch.failures@,
        result matches Err(failure) ==> next.succeeded == batch.succeeded && next.failures@
            == batch.failures@.push(failure),
{
}

/// A target directory on the command line is taken, unless it is empty; without
/// one the config file on the command line decides.
pub proof fn law_target_directory_comes_from_the_command_line<F>(
    run: Result<MoveRun<F>, ErrorReport>,
    cli: Cli,
    sources: Vec<String>,
    target_dir: Option<String>,
)
    requires
        MoveRun::started(run, cli, sources, target_dir),
    ensures
        target_dir matches Some(dir) ==> {
            &&& run is Err <==> dir@.len() == 0
            &&& dir@.len() > 0 ==> {
                &&& run matches Ok(MoveRun::Ready(batch))
                &&& batch.target_dir == dir
                &&& batch.sources == sources
                &&& batch.dry_run == cli.dry_run
                &&& batch.next == 0
            }
        },
        target_dir is None ==> (run matches Ok(MoveRun::NeedsConfig { path, sources: list, dry_run })
            && path == cli.config && list == sources && dry_run == cli.dry_run),
{
}

/// A summary of moves begins with the mode and the counts; a list of failures
/// stands under its title, each on a line of its own, and only where there are any.
pub proof fn law_move_summary_lists_the_lines<F>(
    outcome: MoveOutcome<F>,
    dry_run: bool,
    mode: Seq<char>,
    title: Seq<char>,
    lines: Seq<Seq<char>>,
    line: Seq<char>,
)
    ensures
        ({
            let counts = "\nTotal: "@ + decimal(outcome.total as nat) + "\nSucceeded: "@ + decimal(
                outcome.succeeded as nat,
            ) + "\nFailed: "@ + decimal(outcome.failed as nat) + "\n"@;
            let shown = if dry_run {
                "dry-run (nothing was moved)"@
            } else {
                mode
            };
            let head = "Mode: "@ + shown + counts;
            &&& move_summary(outcome, dry_run, mode, title, seq![]) =~= head
            &&& lines.len() > 0 ==> move_summary(outcome, dry_run, mode, title, lines) =~= head
                + "\n"@ + title + "\n"@ + listed(lines)
        }),
        listed(seq![]) == Seq::<char>::empty(),
        listed(lines.push(line)) == listed(lines) + line + "\n"@,
{
    assert(lines.push(line).drop_last() =~= lines);
}

} // verus!
