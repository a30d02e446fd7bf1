//! The orchestrator: probe, decide, fetch, merge.
//!
//! The orchestrator is a state machine that performs no I/O. [`start`] and
//! [`run`] each return the next state together with the [`Action`] that the
//! caller is to carry out; the caller reports how that went as the [`Event`]
//! of the next call. Which URI and which paths an action is about is read
//! from the `config` of the state that came with it.
//!
//! Deciding between an empty resource, one fetch and several takes no
//! outside work, so it happens in the step that handles the final answer of
//! the probe. A merge whose total is wrong ends the run before anything is
//! written, and its part slots are kept: they are removed only by the action
//! that writes the artifact.

use vstd::prelude::*;
use crate::config::{Config, ConfigView};
use crate::fetch::{artifact_name, artifact_path};
use crate::merge::{concat_parts, merge, part_bytes, MergeError};
use crate::parts::{listed, part_indices, strictly_increasing};
use crate::plan::{plan, planned_blocks, BlockSpec, PlanDecision, PlanError};
use crate::probe::{
    head_outcome, location_of, read_head, redirect_target, HeadOutcome, HeadResponse, ProbeError,
    ProbeResult,
};
use crate::uri::{uri_parses, uri_well_formed};

verus! {

/// How many redirects a probe follows before it gives up.
pub const MAX_REDIRECTS: u32 = 10;

/// How far a merge has come.
#[derive(Debug, PartialEq, Eq)]
pub enum MergeStage {
    /// The directory is being listed.
    Listing,
    /// The part slots of these blocks are being read, in this order.
    Reading { indices: Vec<u64> },
    /// The artifact is being written and the part slots removed.
    Writing,
}

/// Where a run stands.
#[derive(Debug, PartialEq, Eq)]
pub enum Phase {
    /// A `HEAD` request is under way, after `hops` redirects.
    Probing { hops: u32 },
    /// The resource is being fetched in one piece.
    WholeDownload,
    /// The blocks are being fetched.
    BlockDownload { content_length: u64 },
    /// The blocks are being merged into the artifact.
    Merging { content_length: u64, stage: MergeStage },
    /// The artifact is written.
    Done,
    /// The resource is empty: the run is over and nothing was written.
    PlanEmpty,
    /// The probe failed.
    ProbeFailed(ProbeError),
    /// No plan could be made.
    PlanFailed(PlanError),
    /// A fetch failed.
    FetchFailed(FetchError),
    /// The merge failed; the part slots are kept.
    MergeFailed(MergeError),
}

/// Which fetch failed.
#[derive(Clone, Copy, Debug, PartialEq, Eq, Structural)]
pub enum FetchError {
    /// The fetch of the resource in one piece.
    Whole,
    /// The fetch of one of the blocks.
    Block,
}

/// Why a run failed.
#[derive(Clone, Copy, Debug, PartialEq, Eq)]
pub enum DownloadError {
    Probe(ProbeError),
    Plan(PlanError),
    Fetch(FetchError),
    Merge(MergeError),
}

/// A run: the configuration, whose URI follows the redirects while probing,
/// and the phase.
#[derive(Debug, PartialEq, Eq)]
pub struct Download {
    pub config: Config,
    pub phase: Phase,
}

/// What the outside world reports back.
#[derive(Debug, PartialEq, Eq)]
pub enum Event {
    /// The `HEAD` request was answered with these headers.
    Head(HeadResponse),
    /// Every fetch that was asked for has written its body.
    Fetched,
    /// The directory holds these entries, each with its full path.
    Listing(Vec<String>),
    /// The part slots hold these bytes, in the order they were asked for.
    Parts(Vec<Vec<u8>>),
    /// The artifact is written and the part slots are removed.
    Written,
    /// The action could not be carried out.
    Failed,
}

/// What the caller is to do next.
#[derive(Debug, PartialEq, Eq)]
pub enum Action {
    /// Send `HEAD` to `config.uri`; report `Event::Head`.
    Head,
    /// Send `GET` to `config.uri` and write the body to the artifact's path;
    /// report `Event::Fetched`.
    FetchWhole,
    /// For each block, send `GET` to `config.uri` with the block's `Range`
    /// header and write the body to the block's part slot; report
    /// `Event::Fetched` when all are written.
    FetchBlocks(Vec<BlockSpec>),
    /// List the directory `config.path`; report `Event::Listing`.
    ListParts,
    /// Read the part slots of these blocks; report `Event::Parts` with the
    /// contents in the same order.
    ReadParts(Vec<u64>),
    /// Write `bytes` to the artifact's path, then remove the part slots of
    /// the blocks `consumed`; report `Event::Written`.
    WriteArtifact { bytes: Vec<u8>, consumed: Vec<u64> },
    /// The run is over and succeeded.
    Finish,
    /// The run is over and failed; the phase tells why. Nothing is to be
    /// cleaned up: what was written stays.
    Abort,
}

/// A state and the action that leads out of it.
#[derive(Debug, PartialEq, Eq)]
pub struct Step {
    pub state: Download,
    pub action: Action,
}

/// `post` is `pre` in the phase `phase`, with the same configuration.
pub open spec fn moves_to(pre: Download, post: Download, phase: Phase) -> bool {
    post.config@ == pre.config@ && post.phase == phase
}

/// The resource is to be fetched in blocks.
pub open spec fn splits(content_length: Option<u64>, supports_ranges: bool, block_size: u64) -> bool {
    content_length matches Some(n) && supports_ranges && block_size > 0 && n / block_size > 1
}

/// What follows the final answer of a probe. An empty resource ends the run
/// at once, whatever else the answer says. A resource that supports ranges
/// and holds two blocks or more is fetched in blocks; any other is fetched
/// in one piece, except that a block size of zero cannot be planned with.
pub open spec fn decides(
    pre: Download,
    content_length: Option<u64>,
    supports_ranges: bool,
    post: Download,
    action: Action,
) -> bool {
    let block_size = pre.config.block_size;
    if content_length == Some(0u64) {
        moves_to(pre, post, Phase::PlanEmpty) && action is Finish
    } else if splits(content_length, supports_ranges, block_size) {
        &&& moves_to(pre, post, Phase::BlockDownload { content_length: content_length->0 })
        &&& action matches Action::FetchBlocks(blocks)
        &&& blocks@ == planned_blocks(content_length->0, block_size)
    } else if content_length is Some && supports_ranges && block_size == 0 {
        moves_to(pre, post, Phase::PlanFailed(PlanError::ZeroBlockSize)) && action is Abort
    } else {
        moves_to(pre, post, Phase::WholeDownload) && action is FetchWhole
    }
}

/// What follows an answer to `HEAD` after `hops` redirects. `target_ok`
/// tells whether the location that the answer redirects to, if any, is a
/// well-formed URI.
pub open spec fn probes(
    pre: Download,
    hops: u32,
    response: HeadResponse,
    target_ok: bool,
    post: Download,
    action: Action,
) -> bool {
    match head_outcome(response) {
        Err(e) => moves_to(pre, post, Phase::ProbeFailed(e)) && action is Abort,
        Ok(HeadOutcome::Redirect) => if hops >= MAX_REDIRECTS {
            moves_to(pre, post, Phase::ProbeFailed(ProbeError::TooManyRedirects))
                && action is Abort
        } else if !target_ok {
            moves_to(pre, post, Phase::ProbeFailed(ProbeError::InvalidUri)) && action is Abort
        } else {
            &&& post.config@ == (ConfigView { uri: redirect_target(response)->0, ..pre.config@ })
            &&& post.phase == Phase::Probing { hops: (hops + 1) as u32 }
            &&& action is Head
        },
        Ok(HeadOutcome::Terminal { content_length, supports_ranges }) => decides(
            pre,
            content_length,
            supports_ranges,
            post,
            action,
        ),
    }
}

/// What follows an event while merging a resource of `content_length`
/// bytes. The part slots are taken in ascending order of their block index,
/// wherever the listing has them. The artifact is written only if the parts
/// together are exactly `content_length` bytes long.
pub open spec fn merges(
    pre: Download,
    content_length: u64,
    stage: MergeStage,
    event: Event,
    post: Download,
    action: Action,
) -> bool {
    let failed = moves_to(pre, post, Phase::MergeFailed(MergeError::Io))
        && action is Abort;
    match stage {
        MergeStage::Listing => match event {
            Event::Listing(entries) => {
                &&& post.config@ == pre.config@
                &&& post.phase matches Phase::Merging {
                    content_length: n,
                    stage: MergeStage::Reading { indices },
                }
                &&& n == content_length
                &&& strictly_increasing(indices@)
                &&& forall|i: u64|
                    indices@.contains(i) <==> listed(
                        entries@,
                        artifact_name(pre.config.path@, pre.config.file_name@),
                        i,
                    )
                &&& action matches Action::ReadParts(asked)
                &&& asked@ == indices@
            },
            _ => failed,
        },
        MergeStage::Reading { indices } => match event {
            Event::Parts(parts) => if parts@.len() != indices@.len() {
                failed
            } else if concat_parts(part_bytes(parts@)).len() != content_length {
                moves_to(pre, post, Phase::MergeFailed(MergeError::LengthMismatch))
                    && action is Abort
            } else {
                &&& moves_to(
                    pre,
                    post,
                    Phase::Merging { content_length, stage: MergeStage::Writing },
                )
                &&& action matches Action::WriteArtifact { bytes, consumed }
                &&& bytes@ == concat_parts(part_bytes(parts@))
                &&& consumed@ == indices@
            },
            _ => failed,
        },
        MergeStage::Writing => match event {
            Event::Written => moves_to(pre, post, Phase::Done) && action is Finish,
            _ => failed,
        },
    }
}

/// How a run in the phase `phase` ended, or `None` while it is under way. A
/// run succeeds by writing the artifact, or by finding the resource empty.
pub open spec fn outcome_of(phase: Phase) -> Option<Result<(), DownloadError>> {
    match phase {
        Phase::Probing { .. } | Phase::WholeDownload | Phase::BlockDownload { .. }
        | Phase::Merging { .. } => None,
        Phase::Done | Phase::PlanEmpty => Some(Ok(())),
        Phase::ProbeFailed(e) => Some(Err(DownloadError::Probe(e))),
        Phase::PlanFailed(e) => Some(Err(DownloadError::Plan(e))),
        Phase::FetchFailed(e) => Some(Err(DownloadError::Fetch(e))),
        Phase::MergeFailed(e) => Some(Err(DownloadError::Merge(e))),
    }
}

/// The run is over.
pub open spec fn is_terminal(phase: Phase) -> bool {
    outcome_of(phase) is Some
}

/// The run is over and succeeded.
pub open spec fn is_success(phase: Phase) -> bool {
    outcome_of(phase) == Some(Ok::<(), DownloadError>(()))
}

impl Download {
    /// How the run ended, or `None` while it is under way.
    pub fn outcome(&self) -> (outcome: Option<Result<(), DownloadError>>)
        ensures
            outcome == outcome_of(self.phase),
    {
        match &self.phase {
            Phase::Probing { .. } => None,
            Phase::WholeDownload => None,
            Phase::BlockDownload { .. } => None,
            Phase::Merging { .. } => None,
            Phase::Done => Some(Ok(())),
            Phase::PlanEmpty => Some(Ok(())),
            Phase::ProbeFailed(e) => Some(Err(DownloadError::Probe(*e))),
            Phase::PlanFailed(e) => Some(Err(DownloadError::Plan(*e))),
            Phase::FetchFailed(e) => Some(Err(DownloadError::Fetch(*e))),
            Phase::MergeFailed(e) => Some(Err(DownloadError::Merge(*e))),
        }
    }
}

/// The step relation of the orchestrator: in state `pre`, the event `event`
/// leads to state `post` and action `action`. `target_ok` tells whether the
/// location that the event redirects to, if any, is a well-formed URI.
///
/// An event that the phase does not wait for counts as a failure of the
/// phase. A run that is over stays as it is and repeats its last action.
pub open spec fn transition(
    pre: Download,
    event: Event,
    target_ok: bool,
    post: Download,
    action: Action,
) -> bool {
    match pre.phase {
        Phase::Probing { hops } => match event {
            Event::Head(response) => probes(pre, hops, response, target_ok, post, action),
            _ => moves_to(pre, post, Phase::ProbeFailed(ProbeError::Network)) && action is Abort,
        },
        Phase::WholeDownload => match event {
            Event::Fetched => moves_to(pre, post, Phase::Done) && action is Finish,
            _ => moves_to(pre, post, Phase::FetchFailed(FetchError::Whole)) && action is Abort,
        },
        Phase::BlockDownload { content_length } => match event {
            Event::Fetched => moves_to(
                pre,
                post,
                Phase::Merging { content_length, stage: MergeStage::Listing },
            ) && action is ListParts,
            _ => moves_to(pre, post, Phase::FetchFailed(FetchError::Block)) && action is Abort,
        },
        Phase::Merging { content_length, stage } => merges(
            pre,
            content_length,
            stage,
            event,
            post,
            action,
        ),
        _ => moves_to(pre, post, pre.phase) && if is_success(pre.phase) {
            action is Finish
        } else {
            action is Abort
        },
    }
}

/// How a run begins: with a `HEAD` request to the configured URI, if
/// `uri_ok` says that it is well formed.
pub open spec fn begins(config: Config, uri_ok: bool, step: Step) -> bool {
    &&& step.state.config@ == config@
    &&& if uri_ok {
        step.state.phase == (Phase::Probing { hops: 0 }) && step.action is Head
    } else {
        step.state.phase == Phase::ProbeFailed(ProbeError::InvalidUri) && step.action is Abort
    }
}

/// Whether the location that `event` redirects to is a well-formed URI;
/// false where it redirects nowhere.
pub open spec fn target_well_formed(event: Event) -> bool {
    event matches Event::Head(response) && redirect_target(response) matches Some(uri)
        && uri_well_formed(uri)
}

/// Chooses between no fetch, one fetch and a fetch in blocks.
pub fn decide(probe: &ProbeResult, block_size: u64) -> (decision: Result<PlanDecision, PlanError>)
    ensures
        match decision {
            Ok(PlanDecision::Empty) => probe.content_length == Some(0u64),
            Ok(PlanDecision::UseBlocks(blocks)) => {
                &&& splits(probe.content_length, probe.supports_ranges, block_size)
                &&& probe.content_length != Some(0u64)
                &&& blocks@ == planned_blocks(probe.content_length->0, block_size)
            },
            Err(e) => {
                &&& e == PlanError::ZeroBlockSize
                &&& probe.content_length is Some
                &&& probe.content_length != Some(0u64)
                &&& probe.supports_ranges
                &&& block_size == 0
            },
            Ok(PlanDecision::UseWhole) => {
                &&& probe.content_length != Some(0u64)
                &&& !splits(probe.content_length, probe.supports_ranges, block_size)
                &&& !(probe.content_length is Some && probe.supports_ranges && block_size == 0)
            },
        },
{
    match probe.content_length {
        None => Ok(PlanDecision::UseWhole),
        Some(n) => {
            if n == 0 {
                Ok(PlanDecision::Empty)
            } else if !probe.supports_ranges {
                Ok(PlanDecision::UseWhole)
            } else {
                plan(n, block_size)
            }
        },
    }
}

/// The first step of a run, given whether the configured URI is well
/// formed.
pub fn begin(config: Config, uri_ok: bool) -> (step: Step)
    ensures
        begins(config, uri_ok, step),
{
    if uri_ok {
        Step { state: Download { config, phase: Phase::Probing { hops: 0 } }, action: Action::Head }
    } else {
        Step {
            state: Download { config, phase: Phase::ProbeFailed(ProbeError::InvalidUri) },
            action: Action::Abort,
        }
    }
}

/// Begins a run: checks the configured URI and asks for the first `HEAD`
/// request.
pub fn start(config: Config) -> (step: Step)
    ensures
        begins(config, uri_well_formed(config.uri@), step),
{
    let uri_ok = uri_parses(config.uri.as_str());
    begin(config, uri_ok)
}

/// Ends the run in the phase `phase`.
fn halt(config: Config, phase: Phase) -> (step: Step)
    requires
        is_terminal(phase),
    ensures
        step.state.config == config,
        step.state.phase == phase,
        step.action == if is_success(phase) {
            Action::Finish
        } else {
            Action::Abort
        },
{
    let action = match phase {
        Phase::Done | Phase::PlanEmpty => Action::Finish,
        _ => Action::Abort,
    };
    Step { state: Download { config, phase }, action }
}

/// Handles an answer to `HEAD` after `hops` redirects.
fn on_head(config: Config, hops: u32, response: &HeadResponse, target_ok: bool) -> (step: Step)
    ensures
        probes(
            Download { config, phase: Phase::Probing { hops } },
            hops,
            *response,
            target_ok,
            step.state,
            step.action,
        ),
{
    match read_head(response) {
        Err(e) => halt(config, Phase::ProbeFailed(e)),
        Ok(HeadOutcome::Redirect) => {
            if hops >= MAX_REDIRECTS {
                halt(config, Phase::ProbeFailed(ProbeError::TooManyRedirects))
            } else if !target_ok {
                halt(config, Phase::ProbeFailed(ProbeError::InvalidUri))
            } else {
                match location_of(response) {
                    Some(target) => {
                        let mut config = config;
                        config.set_uri(&target);
                        Step {
                            state: Download { config, phase: Phase::Probing { hops: hops + 1 } },
                            action: Action::Head,
                        }
                    },
                    None => halt(config, Phase::ProbeFailed(ProbeError::MalformedLocation)),
                }
            }
        },
        Ok(HeadOutcome::Terminal { content_length, supports_ranges }) => {
            let probe = ProbeResult { final_uri: config.uri.clone(), content_length, supports_ranges };
            match decide(&probe, config.block_size) {
                Ok(PlanDecision::Empty) => halt(config, Phase::PlanEmpty),
                Ok(PlanDecision::UseWhole) => Step {
                    state: Download { config, phase: Phase::WholeDownload },
                    action: Action::FetchWhole,
                },
                Ok(PlanDecision::UseBlocks(blocks)) => {
                    let n = match content_length {
                        Some(n) => n,
                        None => 0,
                    };
                    Step {
                        state: Download { config, phase: Phase::BlockDownload { content_length: n } },
                        action: Action::FetchBlocks(blocks),
                    }
                },
                Err(e) => halt(config, Phase::PlanFailed(e)),
            }
        },
    }
}

/// Handles an event while merging.
fn on_merge(config: Config, content_length: u64, stage: MergeStage, event: Event) -> (step: Step)
    ensures
        merges(
            Download { config, phase: Phase::Merging { content_length, stage } },
            content_length,
            stage,
            event,
            step.state,
            step.action,
        ),
{
    match stage {
        MergeStage::Listing => match event {
            Event::Listing(entries) => {
                let prefix = artifact_path(&config);
                let indices = part_indices(&entries, prefix.as_str());
                let asked = indices.clone();
                assert(asked@ =~= indices@);
                Step {
                    state: Download {
                        config,
                        phase: Phase::Merging {
                            content_length,
                            stage: MergeStage::Reading { indices },
                        },
                    },
                    action: Action::ReadParts(asked),
                }
            },
            _ => halt(config, Phase::MergeFailed(MergeError::Io)),
        },
        MergeStage::Reading { indices } => match event {
            Event::Parts(parts) => {
                if parts.len() != indices.len() {
                    halt(config, Phase::MergeFailed(MergeError::Io))
                } else {
                    match merge(&parts, content_length) {
                        Ok(bytes) => Step {
                            state: Download {
                                config,
                                phase: Phase::Merging { content_length, stage: MergeStage::Writing },
                            },
                            action: Action::WriteArtifact { bytes, consumed: indices },
                        },
                        Err(e) => halt(config, Phase::MergeFailed(e)),
                    }
                }
            },
            _ => halt(config, Phase::MergeFailed(MergeError::Io)),
        },
        MergeStage::Writing => match event {
            Event::Written => halt(config, Phase::Done),
            _ => halt(config, Phase::MergeFailed(MergeError::Io)),
        },
    }
}

/// Takes one step, given whether the location that `event` redirects to, if
/// any, is a well-formed URI.
pub fn advance(state: Download, event: Event, target_ok: bool) -> (step: Step)
    ensures
        transition(state, event, target_ok, step.state, step.action),
{
    let Download { config, phase } = state;
    match phase {
        Phase::Probing { hops } => match event {
            Event::Head(response) => on_head(config, hops, &response, target_ok),
            _ => halt(config, Phase::ProbeFailed(ProbeError::Network)),
        },
        Phase::WholeDownload => match event {
            Event::Fetched => halt(config, Phase::Done),
            _ => halt(config, Phase::FetchFailed(FetchError::Whole)),
        },
        Phase::BlockDownload { content_length } => match event {
            Event::Fetched => Step {
                state: Download {
                    config,
                    phase: Phase::Merging { content_length, stage: MergeStage::Listing },
                },
                action: Action::ListParts,
            },
            _ => halt(config, Phase::FetchFailed(FetchError::Block)),
        },
        Phase::Merging { content_length, stage } => on_merge(config, content_length, stage, event),
        other => halt(config, other),
    }
}

/// Takes one step: handles the outcome of the last action and tells what to
/// do next.
pub fn run(state: Download, event: Event) -> (step: Step)
    ensures
        transition(state, event, target_well_formed(event), step.state, step.action),
{
    let target_ok = match &event {
        Event::Head(response) => match location_of(response) {
            Some(uri) => uri_parses(uri.as_str()),
            None => false,
        },
        _ => false,
    };
    advance(state, event, target_ok)
}

/// An upper bound on the number of steps that a run in the phase `phase`
/// can still take before it is over.
pub open spec fn steps_left(phase: Phase) -> nat {
    match phase {
        Phase::Probing { hops } => if hops <= MAX_REDIRECTS {
            (5 + MAX_REDIRECTS - hops) as nat
        } else {
            5
        },
        Phase::BlockDownload { .. } => 4,
        Phase::Merging { stage: MergeStage::Listing, .. } => 3,
        Phase::Merging { stage: MergeStage::Reading { .. }, .. } => 2,
        Phase::Merging { stage: MergeStage::Writing, .. } => 1,
        Phase::WholeDownload => 1,
        _ => 0,
    }
}

/// Every step of a run that is under way brings its end nearer: no run
/// takes more than `MAX_REDIRECTS + 5` steps, whatever is reported back, and
/// a `HEAD` request is asked for only by a step that stays in the probing
/// phase.
pub proof fn lemma_every_step_makes_progress(
    pre: Download,
    event: Event,
    target_ok: bool,
    post: Download,
    action: Action,
)
    requires
        !is_terminal(pre.phase),
        transition(pre, event, target_ok, post, action),
    ensures
        steps_left(post.phase) < steps_left(pre.phase),
        steps_left(pre.phase) <= MAX_REDIRECTS + 5,
        action is Head <==> post.phase is Probing,
        is_terminal(post.phase) <==> steps_left(post.phase) == 0,
{
}

/// An answer without a `Location` header ends the probe: the run leaves the
/// probing phase and no further `HEAD` request is asked for.
pub proof fn lemma_probe_ends_without_location(
    pre: Download,
    response: HeadResponse,
    target_ok: bool,
    post: Download,
    action: Action,
)
    requires
        pre.phase is Probing,
        response.location is None,
        transition(pre, Event::Head(response), target_ok, post, action),
    ensures
        !(post.phase is Probing),
        !(action is Head),
        post.config@ == pre.config@,
{
}

/// A probe follows at most `MAX_REDIRECTS` redirects: each step that stays
/// in the probing phase counts one more, and never beyond the limit.
pub proof fn lemma_redirects_bounded(
    pre: Download,
    event: Event,
    target_ok: bool,
    post: Download,
    action: Action,
)
    requires
        pre.phase is Probing,
        post.phase is Probing,
        transition(pre, event, target_ok, post, action),
    ensures
        post.phase->hops == pre.phase->hops + 1,
        post.phase->hops <= MAX_REDIRECTS,
        target_ok,
        event matches Event::Head(response) && redirect_target(response) == Some(post.config@.uri),
{
}

/// A step changes nothing of the configuration but its URI, and the URI
/// only while the run stays in the probing phase: once the probe is over,
/// every fetch sees the same URI.
pub proof fn lemma_configuration_kept(
    pre: Download,
    event: Event,
    target_ok: bool,
    post: Download,
    action: Action,
)
    requires
        transition(pre, event, target_ok, post, action),
    ensures
        post.config@.block_size == pre.config@.block_size,
        post.config@.path == pre.config@.path,
        post.config@.file_name == pre.config@.file_name,
        !(pre.phase is Probing && post.phase is Probing) ==> post.config@ == pre.config@,
{
}

/// An empty resource ends the run with success and without any fetch or
/// write, whether or not the server supports ranges.
pub proof fn lemma_empty_resource_is_no_op(
    pre: Download,
    response: HeadResponse,
    supports_ranges: bool,
    target_ok: bool,
    post: Download,
    action: Action,
)
    requires
        pre.phase is Probing,
        head_outcome(response) == Ok::<HeadOutcome, ProbeError>(
            HeadOutcome::Terminal { content_length: Some(0u64), supports_ranges },
        ),
        transition(pre, Event::Head(response), target_ok, post, action),
    ensures
        post.phase is PlanEmpty,
        action is Finish,
{
}

/// A resource that holds fewer than two blocks is fetched in one piece,
/// whether or not the server supports ranges.
pub proof fn lemma_small_resource_is_fetched_whole(
    pre: Download,
    response: HeadResponse,
    length: u64,
    supports_ranges: bool,
    target_ok: bool,
    post: Download,
    action: Action,
)
    requires
        pre.phase is Probing,
        pre.config.block_size > 0,
        0 < length,
        length / pre.config.block_size <= 1,
        head_outcome(response) == Ok::<HeadOutcome, ProbeError>(
            HeadOutcome::Terminal { content_length: Some(length), supports_ranges },
        ),
        transition(pre, Event::Head(response), target_ok, post, action),
    ensures
        post.phase is WholeDownload,
        action is FetchWhole,
{
}

/// Without an `Accept-Ranges` header a resource that is not empty is
/// fetched in one piece, however long it is.
pub proof fn lemma_no_ranges_is_fetched_whole(
    pre: Download,
    response: HeadResponse,
    target_ok: bool,
    post: Download,
    action: Action,
)
    requires
        pre.phase is Probing,
        response.location is None,
        response.accept_ranges is None,
        head_outcome(response) matches Ok(HeadOutcome::Terminal { content_length, .. })
            && content_length != Some(0u64),
        transition(pre, Event::Head(response), target_ok, post, action),
    ensures
        post.phase is WholeDownload,
        action is FetchWhole,
{
}

/// The artifact is written only out of a merge whose parts are together as
/// long as the resource, and then it holds the parts joined in the order in
/// which they were asked for. In particular a merge of the wrong length
/// writes nothing.
pub proof fn lemma_artifact_written_only_when_complete(
    pre: Download,
    event: Event,
    target_ok: bool,
    post: Download,
    action: Action,
)
    requires
        transition(pre, event, target_ok, post, action),
        action is WriteArtifact,
    ensures
        pre.phase matches Phase::Merging { content_length, stage: MergeStage::Reading { indices } }
            && event matches Event::Parts(parts) && action matches Action::WriteArtifact {
            bytes,
            consumed,
        } && bytes@ == concat_parts(part_bytes(parts@)) && bytes@.len() == content_length
            && consumed@ == indices@,
{
}

/// A merge whose parts are together not as long as the resource fails, and
/// asks for nothing to be written or removed.
pub proof fn lemma_mismatch_fails(
    pre: Download,
    parts: Vec<Vec<u8>>,
    target_ok: bool,
    post: Download,
    action: Action,
)
    requires
        pre.phase matches Phase::Merging { content_length, stage: MergeStage::Reading { .. } }
            && concat_parts(part_bytes(parts@)).len() != content_length,
        transition(pre, Event::Parts(parts), target_ok, post, action),
    ensures
        post.phase is MergeFailed,
        action is Abort,
{
}

/// A run that is over stays over; success is reported only for a run that
/// ended in `Done` or `PlanEmpty`, and failure for every other end.
pub proof fn lemma_ends_are_final(
    pre: Download,
    event: Event,
    target_ok: bool,
    post: Download,
    action: Action,
)
    requires
        transition(pre, event, target_ok, post, action),
    ensures
        is_terminal(pre.phase) ==> post.phase == pre.phase,
        action is Finish <==> is_success(post.phase),
        action is Abort <==> is_terminal(post.phase) && !is_success(post.phase),
{
}

} // verus!
