//! The upload of a set of files, one after the other: what to do after
//! each attempt, given the settings and how the attempt ended.

use vstd::prelude::*;

verus! {

/// The settings that the drivers consult.
#[derive(Clone, Copy, Debug, PartialEq, Eq, Structural)]
pub struct Settings {
    /// The pause between two files and the growth of the pause between two
    /// attempts on one file, in milliseconds.
    pub timeout: u64,
    /// How often a failed file is tried again.
    pub retry_attempts: u8,
    /// Whether a file that cannot be uploaded is passed over; else it ends
    /// the batch.
    pub skip_on_error: bool,
    /// Whether an uploaded file is removed with its companions.
    pub delete_files_in_progress: bool,
    /// Whether the directory is removed once the batch is through.
    pub delete_folder: bool,
}

/// The kinds of failure.
#[derive(Clone, Copy, Debug, PartialEq, Eq, Structural)]
pub enum FailureKind {
    /// The network, the server's answer or its decoding.
    Transport,
    /// The transport gave up after its own attempts.
    MaxRetriesExceeded,
    /// A companion file or the list of pairs cannot be read.
    Parse,
    /// A post to merge has no version.
    MissingVersion,
    /// The server holds a newer version than the update names.
    VersionConflict,
}

impl FailureKind {
    /// Whether another attempt can help. Input that cannot be read and a
    /// version that is missing or stale stay as they are.
    pub open spec fn retryable(self) -> bool {
        self is Transport || self is MaxRetriesExceeded
    }

    /// Whether another attempt can help.
    pub fn is_retryable(&self) -> (r: bool)
        ensures
            r == self.retryable(),
    {
        match self {
            FailureKind::Transport => true,
            FailureKind::MaxRetriesExceeded => true,
            _ => false,
        }
    }
}

/// The pause before the first new attempt, in milliseconds.
pub const FIRST_RETRY_DELAY: u64 = 100;

/// The pause before a new attempt on a file that was tried again
/// `retries_used` times already: it grows by the timeout each time.
pub open spec fn retry_delay(timeout: u64, retries_used: nat) -> nat {
    FIRST_RETRY_DELAY as nat + retries_used * timeout as nat
}

/// The pause before a new attempt, in milliseconds.
pub fn retry_delay_ms(timeout: u64, retries_used: u8) -> (r: u128)
    ensures
        r == retry_delay(timeout, retries_used as nat),
{
    assert(retries_used as nat * timeout as nat <= 255 * 0xFFFF_FFFF_FFFF_FFFF) by (nonlinear_arith)
        requires
            retries_used <= 255,
            timeout <= 0xFFFF_FFFF_FFFF_FFFF,
    ;
    FIRST_RETRY_DELAY as u128 + retries_used as u128 * timeout as u128
}

/// What an uploaded file gave.
#[derive(Clone, Debug)]
pub struct BatchOutcome {
    pub post_id: u32,
    /// The creator that the file's descriptor names.
    pub artist: Option<String>,
}

/// How an attempt on a file ended.
#[derive(Clone, Debug)]
pub enum BatchEvent {
    Uploaded(BatchOutcome),
    Failed(FailureKind),
}

/// Where a batch stands.
#[derive(Clone, Copy, Debug, PartialEq, Eq, Structural)]
pub enum Phase {
    /// An attempt on the current file is to be made or under way.
    Uploading,
    /// Every file was uploaded or passed over.
    Finished,
    /// A file ended the batch.
    Aborted(FailureKind),
}

/// What comes next.
#[derive(Clone, Copy, Debug, PartialEq, Eq, Structural)]
pub enum Next {
    /// Upload the file with this index.
    Upload { file: usize },
    /// The batch is through.
    Finish { remove_folder: bool },
    /// The batch ends with this failure; what was uploaded stays reported.
    Abort { failure: FailureKind },
}

/// What to do after an attempt, in this order: remove the file, wait, go
/// on.
#[derive(Clone, Copy, Debug, PartialEq, Eq, Structural)]
pub struct Directive {
    /// Whether to remove the file just uploaded, and its companions.
    pub remove_source: bool,
    /// How long to wait, in milliseconds.
    pub wait_ms: u128,
    pub next: Next,
}

/// A batch under way.
#[derive(Clone, Debug)]
pub struct BatchState {
    /// The number of files.
    pub total: usize,
    /// The index of the file in work; the number of files, once finished.
    pub current: usize,
    /// How often the file in work was tried again.
    pub retries: u8,
    /// What was uploaded, in the order of the files.
    pub outcomes: Vec<BatchOutcome>,
    pub phase: Phase,
}

/// A batch as plain mathematical values.
pub ghost struct BatchView {
    pub total: nat,
    pub current: nat,
    pub retries: nat,
    pub outcomes: Seq<BatchOutcome>,
    pub phase: Phase,
}

impl View for BatchState {
    type V = BatchView;

    open spec fn view(&self) -> BatchView {
        BatchView {
            total: self.total as nat,
            current: self.current as nat,
            retries: self.retries as nat,
            outcomes: self.outcomes@,
            phase: self.phase,
        }
    }
}

impl BatchView {
    /// The file in work is one of the batch, and no more files were uploaded
    /// than were worked on.
    pub open spec fn well_formed(self) -> bool {
        &&& self.current <= self.total <= usize::MAX
        &&& self.outcomes.len() <= self.current
        &&& self.phase is Uploading ==> self.current < self.total
        &&& self.phase is Finished ==> self.current == self.total
    }

    /// Whether to remove the directory at the end: where the settings say
    /// so and every file was uploaded.
    pub open spec fn removes_folder(self, settings: Settings) -> bool {
        settings.delete_folder && self.outcomes.len() == self.total
    }

    /// The batch once the file in work is settled: on to the next file, or
    /// through.
    pub open spec fn moved_on(self, settings: Settings) -> (BatchView, Next) {
        let file = self.current + 1;
        if file < self.total {
            (BatchView { current: file, retries: 0, ..self }, Next::Upload { file: file as usize })
        } else {
            (
                BatchView { current: file, retries: 0, phase: Phase::Finished, ..self },
                Next::Finish { remove_folder: self.removes_folder(settings) },
            )
        }
    }

    /// The batch after an attempt on the file in work, and what to do.
    ///
    /// An upload is recorded and followed by the pause between files. A
    /// failure that another attempt can help, while the file has attempts
    /// left, brings a growing pause and the same file again. Any other
    /// failure settles the file: it is passed over, or it ends the batch.
    pub open spec fn stepped(self, settings: Settings, event: BatchEvent) -> (BatchView, Directive) {
        match event {
            BatchEvent::Uploaded(outcome) => {
                let (state, next) = (BatchView {
                    outcomes: self.outcomes.push(outcome),
                    ..self
                }).moved_on(settings);
                (
                    state,
                    Directive {
                        remove_source: settings.delete_files_in_progress,
                        wait_ms: settings.timeout as u128,
                        next,
                    },
                )
            },
            BatchEvent::Failed(failure) => {
                if failure.retryable() && self.retries < settings.retry_attempts {
                    (
                        BatchView { retries: self.retries + 1, ..self },
                        Directive {
                            remove_source: false,
                            wait_ms: retry_delay(settings.timeout, self.retries) as u128,
                            next: Next::Upload { file: self.current as usize },
                        },
                    )
                } else if settings.skip_on_error {
                    let (state, next) = self.moved_on(settings);
                    (
                        state,
                        Directive { remove_source: false, wait_ms: settings.timeout as u128, next },
                    )
                } else {
                    (
                        BatchView { phase: Phase::Aborted(failure), ..self },
                        Directive {
                            remove_source: false,
                            wait_ms: 0,
                            next: Next::Abort { failure },
                        },
                    )
                }
            },
        }
    }
}

impl BatchState {
    /// A batch of `total` files, and its first step.
    pub fn start(total: usize, settings: &Settings) -> (r: (BatchState, Next))
        ensures
            r.0@.well_formed(),
            r.0@ == (BatchView {
                total: total as nat,
                current: 0,
                retries: 0,
                outcomes: Seq::empty(),
                phase: if total == 0 {
                    Phase::Finished
                } else {
                    Phase::Uploading
                },
            }),
            r.1 == if total == 0 {
                Next::Finish { remove_folder: settings.delete_folder }
            } else {
                Next::Upload { file: 0 }
            },
    {
        if total == 0 {
            (
                BatchState {
                    total,
                    current: 0,
                    retries: 0,
                    outcomes: Vec::new(),
                    phase: Phase::Finished,
                },
                Next::Finish { remove_folder: settings.delete_folder },
            )
        } else {
            (
                BatchState {
                    total,
                    current: 0,
                    retries: 0,
                    outcomes: Vec::new(),
                    phase: Phase::Uploading,
                },
                Next::Upload { file: 0 },
            )
        }
    }

    /// Whether the batch waits for the end of an attempt.
    pub fn is_running(&self) -> (r: bool)
        ensures
            r == (self.phase is Uploading),
    {
        match self.phase {
            Phase::Uploading => true,
            _ => false,
        }
    }

    /// The numbers of the posts uploaded so far, in the order of the files.
    pub fn succeeded(&self) -> (r: Vec<u32>)
        ensures
            r@ == self.outcomes@.map_values(|o: BatchOutcome| o.post_id),
    {
        let mut r: Vec<u32> = Vec::new();
        let mut i: usize = 0;
        while i < self.outcomes.len()
            invariant
                i <= self.outcomes.len(),
                r@ == self.outcomes@.take(i as int).map_values(|o: BatchOutcome| o.post_id),
            decreases self.outcomes.len() - i,
        {
            r.push(self.outcomes[i].post_id);
            i += 1;
            assert(r@ =~= self.outcomes@.take(i as int).map_values(|o: BatchOutcome| o.post_id));
        }
        assert(self.outcomes@.take(self.outcomes.len() as int) == self.outcomes@);
        r
    }

    fn move_on(&mut self, settings: &Settings) -> (next: Next)
        requires
            old(self).current < old(self).total,
        ensures
            (final(self)@, next) == old(self)@.moved_on(*settings),
    {
        self.current = self.current + 1;
        self.retries = 0;
        if self.current < self.total {
            Next::Upload { file: self.current }
        } else {
            self.phase = Phase::Finished;
            Next::Finish {
                remove_folder: settings.delete_folder && self.outcomes.len() == self.total,
            }
        }
    }

    /// Takes in how the attempt on the file in work ended and says what to
    /// do next.
    pub fn step(&mut self, settings: &Settings, event: BatchEvent) -> (directive: Directive)
        requires
            old(self)@.well_formed(),
            old(self).phase is Uploading,
        ensures
            (final(self)@, directive) == old(self)@.stepped(*settings, event),
            final(self)@.well_formed(),
    {
        match event {
            BatchEvent::Uploaded(outcome) => {
                self.outcomes.push(outcome);
                let next = self.move_on(settings);
                Directive {
                    remove_source: settings.delete_files_in_progress,
                    wait_ms: settings.timeout as u128,
                    next,
                }
            },
            BatchEvent::Failed(failure) => {
                if failure.is_retryable() && self.retries < settings.retry_attempts {
                    let wait_ms = retry_delay_ms(settings.timeout, self.retries);
                    self.retries = self.retries + 1;
                    Directive {
                        remove_source: false,
                        wait_ms,
                        next: Next::Upload { file: self.current },
                    }
                } else if settings.skip_on_error {
                    let next = self.move_on(settings);
                    Directive { remove_source: false, wait_ms: settings.timeout as u128, next }
                } else {
                    self.phase = Phase::Aborted(failure);
                    Directive { remove_source: false, wait_ms: 0, next: Next::Abort { failure } }
                }
            },
        }
    }
}

/// The batch after `k` failures in a row of the kind `failure`.
pub open spec fn after_failures(v: BatchView, settings: Settings, failure: FailureKind, k: nat)
    -> BatchView
    decreases k,
{
    if k == 0 {
        v
    } else {
        after_failures(v, settings, failure, (k - 1) as nat).stepped(
            settings,
            BatchEvent::Failed(failure),
        ).0
    }
}

/// While a file has attempts left, each failure that another attempt can
/// help brings the same file again, after a pause that grows by the
/// timeout: the file is still in work after as many failures as there are
/// attempts to spare.
pub proof fn lemma_retries_within_budget(
    v: BatchView,
    settings: Settings,
    failure: FailureKind,
    k: nat,
)
    requires
        v.well_formed(),
        v.phase is Uploading,
        v.retries == 0,
        failure.retryable(),
        k <= settings.retry_attempts,
    ensures
        after_failures(v, settings, failure, k) == (BatchView { retries: k, ..v }),
        k >= 1 ==> after_failures(v, settings, failure, (k - 1) as nat).stepped(
            settings,
            BatchEvent::Failed(failure),
        ).1 == (Directive {
            remove_source: false,
            wait_ms: retry_delay(settings.timeout, (k - 1) as nat) as u128,
            next: Next::Upload { file: v.current as usize },
        }),
    decreases k,
{
    if k >= 1 {
        lemma_retries_within_budget(v, settings, failure, (k - 1) as nat);
    }
}

/// A file is attempted once and then as often again as the settings
/// allow, and no more: the failure after that settles it. The file is
/// passed over where the settings say so, and the batch goes on with the
/// next one; else the batch ends with that failure. Either way what was
/// uploaded before stays as it was.
pub proof fn lemma_retry_budget_exhausted(v: BatchView, settings: Settings, failure: FailureKind)
    requires
        v.well_formed(),
        v.phase is Uploading,
        v.retries == 0,
        failure.retryable(),
    ensures
        ({
            let spent = after_failures(v, settings, failure, settings.retry_attempts as nat);
            let (state, directive) = spent.stepped(settings, BatchEvent::Failed(failure));
            &&& spent.phase is Uploading
            &&& spent.current == v.current
            &&& state.outcomes == v.outcomes
            &&& settings.skip_on_error ==> state == v.moved_on(settings).0 && directive == (
            Directive {
                remove_source: false,
                wait_ms: settings.timeout as u128,
                next: v.moved_on(settings).1,
            })
            &&& !settings.skip_on_error ==> state.phase == Phase::Aborted(failure) && directive
                == (Directive {
                remove_source: false,
                wait_ms: 0,
                next: Next::Abort { failure },
            })
        }),
{
    lemma_retries_within_budget(v, settings, failure, settings.retry_attempts as nat);
}

/// A failure that no new attempt can help settles the file at once.
pub proof fn lemma_permanent_failure_is_not_retried(
    v: BatchView,
    settings: Settings,
    failure: FailureKind,
)
    requires
        v.well_formed(),
        v.phase is Uploading,
        !failure.retryable(),
    ensures
        ({
            let (state, directive) = v.stepped(settings, BatchEvent::Failed(failure));
            &&& directive.next != Next::Upload { file: v.current as usize }
            &&& settings.skip_on_error ==> state == v.moved_on(settings).0
            &&& !settings.skip_on_error ==> directive.next == Next::Abort { failure }
        }),
{
}

/// A step never takes back what was uploaded: the outcomes before it are
/// the first outcomes after it.
pub proof fn lemma_outcomes_only_grow(v: BatchView, settings: Settings, event: BatchEvent)
    ensures
        ({
            let state = v.stepped(settings, event).0;
            &&& v.outcomes.len() <= state.outcomes.len()
            &&& state.outcomes.take(v.outcomes.len() as int) == v.outcomes
        }),
{
    let state = v.stepped(settings, event).0;
    assert(state.outcomes.take(v.outcomes.len() as int) =~= v.outcomes);
}

} // verus!
