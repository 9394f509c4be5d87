//! The merging of pairs of posts: for each pair the versions of both posts
//! are fetched, then the merge is submitted under those versions.

use crate::batch::{FailureKind, Settings};
use vstd::prelude::*;

verus! {

/// The request that merges one post into another.
#[derive(Clone, Copy, Debug, PartialEq, Eq, Structural)]
pub struct MergeRequest {
    pub remove_post_version: u32,
    pub remove_post: u32,
    pub merge_to_version: u32,
    pub merge_to_post: u32,
    pub replace_post_content: bool,
}

/// The version of a fetched post. A post without one cannot be merged.
pub fn required_version(version: Option<u32>) -> (r: Result<u32, FailureKind>)
    ensures
        r == match version {
            Some(v) => Ok::<u32, FailureKind>(v),
            None => Err::<u32, FailureKind>(FailureKind::MissingVersion),
        },
{
    match version {
        Some(v) => Ok(v),
        None => Err(FailureKind::MissingVersion),
    }
}

/// The request for a pair, given the versions that the server holds. The
/// content of the post that stays is never replaced.
pub open spec fn merge_request_of(
    pair: (u32, u32),
    remove_version: Option<u32>,
    merge_to_version: Option<u32>,
) -> Result<MergeRequest, FailureKind> {
    match (remove_version, merge_to_version) {
        (Some(r), Some(m)) => Ok(
            MergeRequest {
                remove_post_version: r,
                remove_post: pair.0,
                merge_to_version: m,
                merge_to_post: pair.1,
                replace_post_content: false,
            },
        ),
        _ => Err(FailureKind::MissingVersion),
    }
}

/// The request for a pair, given the versions that the server holds. It
/// fails exactly where one of the two posts has no version.
pub fn merge_request(
    pair: (u32, u32),
    remove_version: Option<u32>,
    merge_to_version: Option<u32>,
) -> (r: Result<MergeRequest, FailureKind>)
    ensures
        r == merge_request_of(pair, remove_version, merge_to_version),
{
    let removed = match required_version(remove_version) {
        Ok(v) => v,
        Err(e) => {
            return Err(e);
        },
    };
    let kept = match required_version(merge_to_version) {
        Ok(v) => v,
        Err(e) => {
            return Err(e);
        },
    };
    Ok(
        MergeRequest {
            remove_post_version: removed,
            remove_post: pair.0,
            merge_to_version: kept,
            merge_to_post: pair.1,
            replace_post_content: false,
        },
    )
}

/// The posts that the pairs merge into, in order.
pub fn merge_targets(pairs: &Vec<(u32, u32)>) -> (r: Vec<u32>)
    ensures
        r@ == pairs@.map_values(|p: (u32, u32)| p.1),
{
    let mut r: Vec<u32> = Vec::new();
    let mut i: usize = 0;
    while i < pairs.len()
        invariant
            i <= pairs.len(),
            r@ == pairs@.take(i as int).map_values(|p: (u32, u32)| p.1),
        decreases pairs.len() - i,
    {
        r.push(pairs[i].1);
        i += 1;
        assert(r@ =~= pairs@.take(i as int).map_values(|p: (u32, u32)| p.1));
    }
    assert(pairs@.take(pairs.len() as int) == pairs@);
    r
}

/// Where the work on the pairs stands.
#[derive(Clone, Copy, Debug, PartialEq, Eq, Structural)]
pub enum MergeStage {
    /// The post to remove is being fetched.
    FetchingRemoved,
    /// The post to keep is being fetched.
    FetchingKept { remove_version: u32 },
    /// The merge is being submitted.
    Submitting,
    /// Every pair was merged or passed over.
    Finished,
    /// A pair ended the work.
    Aborted(FailureKind),
}

/// What the outside reports.
#[derive(Clone, Copy, Debug, PartialEq, Eq, Structural)]
pub enum MergeEvent {
    /// A post was fetched, with this version.
    Fetched { version: Option<u32> },
    /// The merge went through.
    Merged,
    /// The fetch or the merge failed.
    Failed(FailureKind),
}

/// What comes next.
#[derive(Clone, Copy, Debug, PartialEq, Eq, Structural)]
pub enum MergeNext {
    Fetch { post: u32 },
    Submit { request: MergeRequest },
    Finish,
    Abort { failure: FailureKind },
}

/// What to do after an event: show how the pair ended, wait, go on.
#[derive(Clone, Copy, Debug, PartialEq, Eq, Structural)]
pub struct MergeDirective {
    /// How the pair in work ended: merged, failed, or not ended yet.
    pub settled: Option<bool>,
    /// How long to wait, in milliseconds.
    pub wait_ms: u128,
    pub next: MergeNext,
}

/// The work on a list of pairs.
#[derive(Clone, Debug)]
pub struct MergeState {
    /// The pairs: the post to remove, then the post to keep.
    pub pairs: Vec<(u32, u32)>,
    /// The index of the pair in work.
    pub current: usize,
    pub stage: MergeStage,
}

/// The work on a list of pairs as plain mathematical values.
pub ghost struct MergeView {
    pub pairs: Seq<(u32, u32)>,
    pub current: nat,
    pub stage: MergeStage,
}

impl View for MergeState {
    type V = MergeView;

    open spec fn view(&self) -> MergeView {
        MergeView { pairs: self.pairs@, current: self.current as nat, stage: self.stage }
    }
}

impl MergeStage {
    /// Whether a pair is in work.
    pub open spec fn active(self) -> bool {
        self is FetchingRemoved || self is FetchingKept || self is Submitting
    }
}

impl MergeView {
    /// The pair in work is one of the list.
    pub open spec fn well_formed(self) -> bool {
        &&& self.current <= self.pairs.len() <= usize::MAX
        &&& self.stage.active() ==> self.current < self.pairs.len()
        &&& self.stage is Finished ==> self.current == self.pairs.len()
    }

    /// Whether the event answers what the work waits for.
    pub open spec fn expects(self, event: MergeEvent) -> bool {
        match event {
            MergeEvent::Fetched { .. } => self.stage is FetchingRemoved || self.stage
                is FetchingKept,
            MergeEvent::Merged => self.stage is Submitting,
            MergeEvent::Failed(_) => self.stage.active(),
        }
    }

    /// The work once the pair in work is settled.
    pub open spec fn moved_on(self) -> (MergeView, MergeNext) {
        let pair = self.current + 1;
        if pair < self.pairs.len() {
            (
                MergeView { current: pair, stage: MergeStage::FetchingRemoved, ..self },
                MergeNext::Fetch { post: self.pairs[pair as int].0 },
            )
        } else {
            (MergeView { current: pair, stage: MergeStage::Finished, ..self }, MergeNext::Finish)
        }
    }

    /// The work after a failure on the pair in work. The pair is not tried
    /// again: it is passed over, or it ends the work.
    pub open spec fn failed(self, settings: Settings, failure: FailureKind) -> (
        MergeView,
        MergeDirective,
    ) {
        if settings.skip_on_error {
            let (state, next) = self.moved_on();
            (
                state,
                MergeDirective { settled: Some(false), wait_ms: settings.timeout as u128, next },
            )
        } else {
            (
                MergeView { stage: MergeStage::Aborted(failure), ..self },
                MergeDirective {
                    settled: Some(false),
                    wait_ms: 0,
                    next: MergeNext::Abort { failure },
                },
            )
        }
    }

    /// The work after an event, and what to do.
    pub open spec fn stepped(self, settings: Settings, event: MergeEvent) -> (
        MergeView,
        MergeDirective,
    ) {
        let pair = self.pairs[self.current as int];
        match event {
            MergeEvent::Failed(failure) => self.failed(settings, failure),
            MergeEvent::Merged => {
                let (state, next) = self.moved_on();
                (
                    state,
                    MergeDirective { settled: Some(true), wait_ms: settings.timeout as u128, next },
                )
            },
            MergeEvent::Fetched { version: None } => self.failed(
                settings,
                FailureKind::MissingVersion,
            ),
            MergeEvent::Fetched { version: Some(v) } => match self.stage {
                MergeStage::FetchingKept { remove_version } => (
                    MergeView { stage: MergeStage::Submitting, ..self },
                    MergeDirective {
                        settled: None,
                        wait_ms: 0,
                        next: MergeNext::Submit {
                            request: MergeRequest {
                                remove_post_version: remove_version,
                                remove_post: pair.0,
                                merge_to_version: v,
                                merge_to_post: pair.1,
                                replace_post_content: false,
                            },
                        },
                    },
                ),
                _ => (
                    MergeView { stage: MergeStage::FetchingKept { remove_version: v }, ..self },
                    MergeDirective {
                        settled: None,
                        wait_ms: 0,
                        next: MergeNext::Fetch { post: pair.1 },
                    },
                ),
            },
        }
    }
}

impl MergeState {
    /// The work on `pairs`, and its first step.
    pub fn start(pairs: Vec<(u32, u32)>) -> (r: (MergeState, MergeNext))
        ensures
            r.0@.well_formed(),
            r.0@ == (MergeView {
                pairs: pairs@,
                current: 0,
                stage: if pairs.len() == 0 {
                    MergeStage::Finished
                } else {
                    MergeStage::FetchingRemoved
                },
            }),
            r.1 == if pairs.len() == 0 {
                MergeNext::Finish
            } else {
                MergeNext::Fetch { post: pairs@[0].0 }
            },
    {
        if pairs.len() == 0 {
            (MergeState { pairs, current: 0, stage: MergeStage::Finished }, MergeNext::Finish)
        } else {
            let first = pairs[0].0;
            (
                MergeState { pairs, current: 0, stage: MergeStage::FetchingRemoved },
                MergeNext::Fetch { post: first },
            )
        }
    }

    /// Whether the event answers what the work waits for.
    pub fn accepts(&self, event: &MergeEvent) -> (r: bool)
        ensures
            r == self@.expects(*event),
    {
        match (event, self.stage) {
            (MergeEvent::Fetched { .. }, MergeStage::FetchingRemoved) => true,
            (MergeEvent::Fetched { .. }, MergeStage::FetchingKept { .. }) => true,
            (MergeEvent::Merged, MergeStage::Submitting) => true,
            (MergeEvent::Failed(_), MergeStage::FetchingRemoved) => true,
            (MergeEvent::Failed(_), MergeStage::FetchingKept { .. }) => true,
            (MergeEvent::Failed(_), MergeStage::Submitting) => true,
            _ => false,
        }
    }

    fn move_on(&mut self) -> (next: MergeNext)
        requires
            old(self).current < old(self).pairs.len(),
        ensures
            (final(self)@, next) == old(self)@.moved_on(),
    {
        self.current = self.current + 1;
        if self.current < self.pairs.len() {
            self.stage = MergeStage::FetchingRemoved;
            MergeNext::Fetch { post: self.pairs[self.current].0 }
        } else {
            self.stage = MergeStage::Finished;
            MergeNext::Finish
        }
    }

    fn fail(&mut self, settings: &Settings, failure: FailureKind) -> (directive: MergeDirective)
        requires
            old(self).current < old(self).pairs.len(),
        ensures
            (final(self)@, directive) == old(self)@.failed(*settings, failure),
    {
        if settings.skip_on_error {
            let next = self.move_on();
            MergeDirective { settled: Some(false), wait_ms: settings.timeout as u128, next }
        } else {
            self.stage = MergeStage::Aborted(failure);
            MergeDirective { settled: Some(false), wait_ms: 0, next: MergeNext::Abort { failure } }
        }
    }

    /// Takes in an event and says what to do next.
    pub fn step(&mut self, settings: &Settings, event: MergeEvent) -> (directive: MergeDirective)
        requires
            old(self)@.well_formed(),
            old(self)@.expects(event),
        ensures
            (final(self)@, directive) == old(self)@.stepped(*settings, event),
            final(self)@.well_formed(),
            final(self)@.pairs == old(self)@.pairs,
    {
        let pair = self.pairs[self.current];
        match event {
            MergeEvent::Failed(failure) => self.fail(settings, failure),
            MergeEvent::Merged => {
                let next = self.move_on();
                MergeDirective { settled: Some(true), wait_ms: settings.timeout as u128, next }
            },
            MergeEvent::Fetched { version } => match required_version(version) {
                Err(failure) => self.fail(settings, failure),
                Ok(v) => match self.stage {
                    MergeStage::FetchingKept { remove_version } => {
                        self.stage = MergeStage::Submitting;
                        MergeDirective {
                            settled: None,
                            wait_ms: 0,
                            next: MergeNext::Submit {
                                request: MergeRequest {
                                    remove_post_version: remove_version,
                                    remove_post: pair.0,
                                    merge_to_version: v,
                                    merge_to_post: pair.1,
                                    replace_post_content: false,
                                },
                            },
                        }
                    },
                    _ => {
                        self.stage = MergeStage::FetchingKept { remove_version: v };
                        MergeDirective {
                            settled: None,
                            wait_ms: 0,
                            next: MergeNext::Fetch { post: pair.1 },
                        }
                    },
                },
            },
        }
    }
}

/// A fetched post without a version settles its pair with the failure
/// `MissingVersion`: nothing is fetched or submitted for that pair again.
/// The pair is passed over where the settings say so; else the work ends.
pub proof fn lemma_missing_version_settles_the_pair(v: MergeView, settings: Settings)
    requires
        v.well_formed(),
        v.stage is FetchingRemoved || v.stage is FetchingKept,
    ensures
        ({
            let (state, directive) = v.stepped(settings, MergeEvent::Fetched { version: None });
            &&& directive.settled == Some(false)
            &&& !(directive.next is Submit)
            &&& settings.skip_on_error ==> state.current == v.current + 1 && (state.stage
                is FetchingRemoved || state.stage is Finished)
            &&& !settings.skip_on_error ==> state.stage == MergeStage::Aborted(
                FailureKind::MissingVersion,
            ) && directive.next == (MergeNext::Abort { failure: FailureKind::MissingVersion })
        }),
{
}

/// The request that is submitted for a pair is the one that the versions
/// of its two posts give.
pub proof fn lemma_submitted_request(v: MergeView, settings: Settings, removed: u32, kept: u32)
    requires
        v.well_formed(),
        v.stage is FetchingRemoved,
    ensures
        ({
            let first = v.stepped(settings, MergeEvent::Fetched { version: Some(removed) }).0;
            let second = first.stepped(settings, MergeEvent::Fetched { version: Some(kept) });
            &&& second.0.stage is Submitting
            &&& Ok::<MergeRequest, FailureKind>(second.1.next->request) == merge_request_of(
                v.pairs[v.current as int],
                Some(removed),
                Some(kept),
            )
        }),
{
}

} // verus!
