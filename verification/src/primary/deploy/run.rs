//! Whole deploys and restarts.
use crate::config::{ClusterConfig, NodeResources, NodeStatus, ServiceDef};
use crate::error::{DeployError, NodeError};
use crate::fsm::{definitions_are_found_by_name, Command, FsmNode, FsmState, Proposed};
use crate::primary::api::sse::Progress;
use crate::primary::deploy::diff::{diff_config, is_plan, DeployPlan};
use crate::primary::deploy::validate::{
    checked_configurations_fit, knows, missing_secrets, only_what_fits_nowhere_is_refused,
    oversized, validate_resource_capacity, validate_secret_refs, validated_secrets_are_known,
    validated_task_secrets_are_known,
};
use crate::rpc::protocol::NodeCommand;
use crate::seqs::{lemma_select_take, lemma_selected, select};
use crate::text::{
    is_listed, joined, lemma_unique_apart, lemma_unique_complete, listed, unique,
};
use vstd::prelude::*;
use vstd::string::*;

verus! {

/// What the driver is asked to do.
#[derive(Debug, PartialEq, Eq)]
pub enum DeployAction {
    /// Read the replicated state.
    ReadState,
    /// Tell the client.
    Emit(Progress),
    /// Send a command to every node.
    Broadcast(NodeCommand),
    /// Propose a command.
    Propose(Command),
    /// Stop the removed service of the given place in the plan.
    StopService { index: usize },
    /// Start the added service of the given place in the plan.
    StartService { index: usize },
    /// Update the changed service of the given place in the plan.
    UpdateService { index: usize },
    /// Nothing: this is the outcome.
    Finished(Result<(), DeployError>),
}

/// What came of an action.
#[derive(Debug, PartialEq, Eq)]
pub enum DeployEvent {
    State(FsmState),
    Emitted,
    Broadcasted,
    Proposed(Proposed),
    Done(Result<(), DeployError>),
}

/// How far a deploy has come.
#[derive(Clone, Copy, Debug, PartialEq, Eq, Structural)]
pub enum DeployPhase {
    /// The configuration in place is read.
    Reading,
    /// The client hears of the start.
    Announcing,
    /// The new configuration is checked.
    Checking,
    /// The nodes pull an image.
    Pulling { index: usize },
    /// The client hears of the pulls.
    AnnouncingPulls,
    /// The new configuration is recorded.
    Recording,
    /// A removed service is stopped.
    Removing { index: usize },
    /// An added service is started.
    Adding { index: usize },
    /// The client hears that an added service failed.
    ReportingAdded { index: usize },
    /// A changed service is updated.
    Changing { index: usize },
    /// The client hears that a changed service failed.
    ReportingChanged { index: usize },
    /// The configuration that was in place is recorded again.
    RollingBack,
    /// The client hears of the end.
    Closing,
    /// The outcome is known.
    Ended,
}

impl DeployPhase {
    /// Whether an event answers the action that led to the phase.
    pub open spec fn expects(self, event: DeployEvent) -> bool {
        match self {
            DeployPhase::Reading => event is State && event->State_0.wf(),
            DeployPhase::Announcing => event is Emitted,
            DeployPhase::Checking => event is State,
            DeployPhase::Pulling { .. } => event is Broadcasted,
            DeployPhase::AnnouncingPulls => event is Emitted,
            DeployPhase::Recording => event is Proposed,
            DeployPhase::Removing { .. } => event is Done,
            DeployPhase::Adding { .. } => event is Done,
            DeployPhase::ReportingAdded { .. } => event is Emitted,
            DeployPhase::Changing { .. } => event is Done,
            DeployPhase::ReportingChanged { .. } => event is Emitted,
            DeployPhase::RollingBack => event is Proposed,
            DeployPhase::Closing => event is Emitted,
            DeployPhase::Ended => false,
        }
    }
}

/// A deploy: compare configurations, check the new one, record it, and stop,
/// start and update services; where a service fails, record the old
/// configuration again.
pub struct Deploy {
    pub new_config: Option<ClusterConfig>,
    pub old_config: Option<ClusterConfig>,
    pub plan: DeployPlan,
    pub images: Vec<String>,
    pub failed: bool,
    pub phase: DeployPhase,
}

/// Nodes that take work.
pub open spec fn ready() -> spec_fn(FsmNode) -> bool {
    |n: FsmNode| n.status is Ready
}

/// What nodes have.
pub open spec fn resources_of(nodes: Seq<FsmNode>) -> Seq<NodeResources> {
    Seq::new(nodes.len(), |i: int| nodes[i].resources)
}

/// What the nodes that take work have.
pub open spec fn capacities(fsm: FsmState) -> Seq<NodeResources> {
    resources_of(select(fsm.nodes@, ready()))
}

/// The names of the secrets.
pub open spec fn secret_names(fsm: FsmState) -> Seq<String> {
    Seq::new(fsm.secrets@.len(), |i: int| fsm.secrets@[i].name)
}

/// The images of services.
pub open spec fn images_of(services: Seq<(String, ServiceDef)>) -> Seq<String> {
    Seq::new(services.len(), |i: int| services[i].1.image)
}

/// The images that a plan needs: those of added and changed services, each
/// once.
pub open spec fn plan_images(plan: DeployPlan) -> Seq<String> {
    unique(images_of(plan.added@) + images_of(plan.changed@))
}

/// What the nodes that take work have.
fn list_capacities(fsm: &FsmState) -> (res: Vec<NodeResources>)
    ensures
        res@ == capacities(*fsm),
{
    let mut out: Vec<NodeResources> = Vec::new();
    let ghost all = fsm.nodes@;
    let mut i: usize = 0;
    assert(resources_of(select(all.take(0), ready())) =~= Seq::empty());
    while i < fsm.nodes.len()
        invariant
            i <= all.len(),
            all == fsm.nodes@,
            out@ == resources_of(select(all.take(i as int), ready())),
        decreases all.len() - i,
    {
        proof {
            lemma_select_take(all, ready(), i as int);
        }
        if fsm.nodes[i].status == NodeStatus::Ready {
            let ghost sel = select(all.take(i as int), ready());
            out.push(fsm.nodes[i].resources);
            assert(out@ =~= resources_of(sel.push(all[i as int])));
        }
        i = i + 1;
    }
    assert(all.take(i as int) =~= all);
    out
}

/// The names of the secrets.
pub fn list_secret_names(fsm: &FsmState) -> (res: Vec<String>)
    ensures
        res@ == secret_names(*fsm),
{
    let mut out: Vec<String> = Vec::new();
    let mut i: usize = 0;
    while i < fsm.secrets.len()
        invariant
            i <= fsm.secrets@.len(),
            out@.len() == i,
            forall|j: int| 0 <= j < i ==> out@[j] == secret_names(*fsm)[j],
        decreases fsm.secrets@.len() - i,
    {
        out.push(fsm.secrets[i].name.clone());
        i = i + 1;
    }
    assert(out@ =~= secret_names(*fsm));
    out
}

/// Adds the images of services to those of others, each once.
fn add_images(
    out: &mut Vec<String>,
    services: &Vec<(String, ServiceDef)>,
    Ghost(before): Ghost<Seq<String>>,
)
    requires
        old(out)@ == unique(before),
    ensures
        final(out)@ == unique(before + images_of(services@)),
{
    let ghost all = images_of(services@);
    let mut i: usize = 0;
    assert(before + all.take(0) =~= before);
    while i < services.len()
        invariant
            i <= services@.len(),
            all == images_of(services@),
            out@ == unique(before + all.take(i as int)),
        decreases services@.len() - i,
    {
        let image = &services[i].1.image;
        proof {
            let upto = before + all.take(i + 1);
            assert(upto.drop_last() =~= before + all.take(i as int));
            assert(upto.last() == *image);
        }
        if !is_listed(out, image) {
            out.push(image.clone());
        }
        i = i + 1;
    }
    assert(all.take(i as int) =~= all);
}

/// The images that a plan needs: those of added and changed services, each
/// once.
pub fn images_to_pull(plan: &DeployPlan) -> (res: Vec<String>)
    ensures
        res@ == plan_images(*plan),
{
    let mut out: Vec<String> = Vec::new();
    add_images(&mut out, &plan.added, Ghost(Seq::empty()));
    assert(Seq::<String>::empty() + images_of(plan.added@) =~= images_of(plan.added@));
    add_images(&mut out, &plan.changed, Ghost(images_of(plan.added@)));
    out
}

/// Every image is pulled once: no two of the images of a plan are the same,
/// and none is left out.
pub proof fn every_image_is_pulled_once(plan: DeployPlan, i: int, j: int)
    requires
        0 <= i < j < plan_images(plan).len(),
    ensures
        plan_images(plan)[i]@ != plan_images(plan)[j]@,
        forall|k: int|
            0 <= k < plan.added@.len() ==> listed(
                plan_images(plan),
                (#[trigger] plan.added@[k]).1.image@,
            ),
        forall|k: int|
            0 <= k < plan.changed@.len() ==> listed(
                plan_images(plan),
                (#[trigger] plan.changed@[k]).1.image@,
            ),
{
    let all = images_of(plan.added@) + images_of(plan.changed@);
    lemma_unique_apart(all, i, j);
    assert forall|k: int| 0 <= k < plan.added@.len() implies listed(
        plan_images(plan),
        (#[trigger] plan.added@[k]).1.image@,
    ) by {
        lemma_unique_complete(all, k);
    }
    assert forall|k: int| 0 <= k < plan.changed@.len() implies listed(
        plan_images(plan),
        (#[trigger] plan.changed@[k]).1.image@,
    ) by {
        lemma_unique_complete(all, plan.added@.len() + k);
    }
}

/// Whether a deploy goes on with pulling images from `index` on.
pub open spec fn pulls_from(deploy: Deploy, index: int, phase: DeployPhase, action: DeployAction) -> bool {
    if index < deploy.images@.len() {
        phase == (DeployPhase::Pulling { index: index as usize }) && action
            == DeployAction::Broadcast(
            NodeCommand::Pull { image: deploy.images@[index], auth: None },
        )
    } else {
        phase is AnnouncingPulls && action == DeployAction::Emit(Progress::Pulling)
    }
}

/// Whether a deploy goes on with removed services from `index` on.
pub open spec fn removes_from(deploy: Deploy, index: int, phase: DeployPhase, action: DeployAction) -> bool {
    if index < deploy.plan.removed@.len() {
        phase == (DeployPhase::Removing { index: index as usize }) && action
            == (DeployAction::StopService { index: index as usize })
    } else {
        adds_from(deploy, 0, deploy.failed, phase, action)
    }
}

/// Whether a deploy goes on with added services from `index` on.
pub open spec fn adds_from(
    deploy: Deploy,
    index: int,
    failed: bool,
    phase: DeployPhase,
    action: DeployAction,
) -> bool {
    if index < deploy.plan.added@.len() {
        phase == (DeployPhase::Adding { index: index as usize }) && action
            == (DeployAction::StartService { index: index as usize })
    } else {
        changes_from(deploy, 0, failed, phase, action)
    }
}

/// Whether a deploy goes on with changed services from `index` on, and where
/// none is left with its end: the old configuration is recorded again where a
/// service failed and there is an old one.
pub open spec fn changes_from(
    deploy: Deploy,
    index: int,
    failed: bool,
    phase: DeployPhase,
    action: DeployAction,
) -> bool {
    if index < deploy.plan.changed@.len() {
        phase == (DeployPhase::Changing { index: index as usize }) && action
            == (DeployAction::UpdateService { index: index as usize })
    } else if failed && deploy.old_config is Some {
        phase is RollingBack && action == DeployAction::Propose(
            Command::Deploy(deploy.old_config->0),
        )
    } else {
        closes(failed, phase, action)
    }
}

/// Whether a deploy tells the client of its end.
pub open spec fn closes(failed: bool, phase: DeployPhase, action: DeployAction) -> bool {
    phase is Closing && action == DeployAction::Emit(Progress::Deployed { success: !failed })
}

/// Whether the client hears that a service failed.
pub open spec fn reports(action: DeployAction, service: String, error: DeployError) -> bool {
    &&& action matches DeployAction::Emit(progress)
    &&& progress matches Progress::Failed { service: name, reason }
    &&& name == service
    &&& reason@ == error.message()
}

/// The words for the first check that a configuration fails.
pub open spec fn refusal(config: ClusterConfig, fsm: FsmState) -> Option<Seq<char>> {
    let missing = missing_secrets(config, secret_names(fsm));
    let large = oversized(config, capacities(fsm));
    if missing.len() > 0 {
        Some("unknown secrets: "@ + joined(missing, ", "@))
    } else if capacities(fsm).len() == 0 {
        Some("no ready nodes in cluster"@)
    } else if large.len() > 0 {
        Some("resources exceed largest node capacity: "@ + joined(large, ", "@))
    } else {
        None
    }
}

/// What one step does: the deploy and the action that follow an event.
pub open spec fn deploy_step(
    deploy: Deploy,
    event: DeployEvent,
    next: Deploy,
    action: DeployAction,
) -> bool {
    let phase = next.phase;
    match (deploy.phase, event) {
        (DeployPhase::Reading, DeployEvent::State(fsm)) => {
            &&& next.new_config == deploy.new_config
            &&& next.old_config == fsm.config
            &&& is_plan(next.plan, fsm.config, deploy.new_config->0)
            &&& next.images@ == plan_images(next.plan)
            &&& next.failed == deploy.failed
            &&& phase is Announcing
            &&& action == DeployAction::Emit(Progress::Started)
        },
        (DeployPhase::Announcing, DeployEvent::Emitted) => {
            &&& next == (Deploy { phase, ..deploy })
            &&& phase is Checking
            &&& action is ReadState
        },
        (DeployPhase::Checking, DeployEvent::State(fsm)) => match refusal(
            deploy.new_config->0,
            fsm,
        ) {
            Some(words) => {
                &&& next == (Deploy { phase, ..deploy })
                &&& phase is Ended
                &&& action matches DeployAction::Finished(Err(error))
                &&& error matches DeployError::ValidationFailed(w)
                &&& w@ == words
            },
            None => if deploy.images@.len() > 0 {
                next == (Deploy { phase, ..deploy }) && pulls_from(deploy, 0, phase, action)
            } else {
                records(deploy, next, action)
            },
        },
        (DeployPhase::Pulling { index }, DeployEvent::Broadcasted) => next == (Deploy {
            phase,
            ..deploy
        }) && pulls_from(deploy, index + 1, phase, action),
        (DeployPhase::AnnouncingPulls, DeployEvent::Emitted) => records(deploy, next, action),
        (DeployPhase::Recording, DeployEvent::Proposed(outcome)) => next == (Deploy {
            phase,
            ..deploy
        }) && match outcome {
            Proposed::Unreached(e) => phase is Ended && action == DeployAction::Finished(
                Err(DeployError::Node(NodeError::Raft(e))),
            ),
            _ => removes_from(deploy, 0, phase, action),
        },
        (DeployPhase::Removing { index }, DeployEvent::Done(outcome)) => match outcome {
            Ok(()) => kept(deploy, next, deploy.failed) && removes_from(
                deploy,
                index + 1,
                phase,
                action,
            ),
            Err(e) => next == (Deploy { phase, ..deploy }) && phase is Ended && action
                == DeployAction::Finished(Err(e)),
        },
        (DeployPhase::Adding { index }, DeployEvent::Done(outcome)) => match outcome {
            Ok(()) => kept(deploy, next, deploy.failed) && adds_from(
                deploy,
                index + 1,
                deploy.failed,
                phase,
                action,
            ),
            Err(e) => next == (Deploy { failed: true, phase, ..deploy }) && phase == (
            DeployPhase::ReportingAdded { index }) && reports(
                action,
                deploy.plan.added@[index as int].0,
                e,
            ),
        },
        (DeployPhase::ReportingAdded { index }, DeployEvent::Emitted) => kept(
            deploy,
            next,
            deploy.failed,
        ) && adds_from(deploy, index + 1, deploy.failed, phase, action),
        (DeployPhase::Changing { index }, DeployEvent::Done(outcome)) => match outcome {
            Ok(()) => kept(deploy, next, deploy.failed) && changes_from(
                deploy,
                index + 1,
                deploy.failed,
                phase,
                action,
            ),
            Err(e) => next == (Deploy { failed: true, phase, ..deploy }) && phase == (
            DeployPhase::ReportingChanged { index }) && reports(
                action,
                deploy.plan.changed@[index as int].0,
                e,
            ),
        },
        (DeployPhase::ReportingChanged { index }, DeployEvent::Emitted) => kept(
            deploy,
            next,
            deploy.failed,
        ) && changes_from(deploy, index + 1, deploy.failed, phase, action),
        (DeployPhase::RollingBack, DeployEvent::Proposed(_)) => kept(deploy, next, deploy.failed)
            && closes(deploy.failed, phase, action),
        (DeployPhase::Closing, DeployEvent::Emitted) => kept(deploy, next, deploy.failed)
            && phase is Ended && action == DeployAction::Finished(Ok(())),
        _ => false,
    }
}

/// Whether a deploy goes on with recording the new configuration.
pub open spec fn records(deploy: Deploy, next: Deploy, action: DeployAction) -> bool {
    &&& next == (Deploy { new_config: None, phase: DeployPhase::Recording, ..deploy })
    &&& action == DeployAction::Propose(Command::Deploy(deploy.new_config->0))
}

/// Whether plan and images stay, and the failure flag is as given. The old
/// configuration leaves the deploy when it is proposed.
pub open spec fn kept(deploy: Deploy, next: Deploy, failed: bool) -> bool {
    &&& next.new_config == deploy.new_config
    &&& next.plan == deploy.plan
    &&& next.images == deploy.images
    &&& next.failed == failed
    &&& next.old_config == if next.phase is RollingBack {
        None
    } else {
        deploy.old_config
    }
}

impl Deploy {
    /// Whether the places agree with the plan, and the new configuration is
    /// there until it is proposed.
    pub open spec fn wf(self) -> bool {
        &&& match self.phase {
            DeployPhase::Reading => true,
            DeployPhase::Announcing => true,
            DeployPhase::Checking => true,
            DeployPhase::Pulling { .. } => true,
            DeployPhase::AnnouncingPulls => true,
            _ => false,
        } ==> self.new_config is Some && self.new_config->0.wf() && !self.failed
        &&& match self.phase {
            DeployPhase::Pulling { index } => index < self.images@.len(),
            DeployPhase::Removing { index } => index < self.plan.removed@.len() && !self.failed,
            DeployPhase::Adding { index } => index < self.plan.added@.len(),
            DeployPhase::ReportingAdded { index } => index < self.plan.added@.len() && self.failed,
            DeployPhase::Changing { index } => index < self.plan.changed@.len(),
            DeployPhase::ReportingChanged { index } => index < self.plan.changed@.len()
                && self.failed,
            DeployPhase::Recording => !self.failed,
            DeployPhase::RollingBack => self.failed,
            _ => true,
        }
    }

    /// A deploy that has not begun. The first action is to read the state.
    pub fn new(config: ClusterConfig) -> (res: Deploy)
        requires
            config.wf(),
        ensures
            res.new_config == Some(config),
            res.old_config is None,
            res.images@.len() == 0,
            !res.failed,
            res.phase is Reading,
            res.wf(),
    {
        Deploy {
            new_config: Some(config),
            old_config: None,
            plan: DeployPlan {
                added: Vec::new(),
                removed: Vec::new(),
                changed: Vec::new(),
                unchanged: Vec::new(),
            },
            images: Vec::new(),
            failed: false,
            phase: DeployPhase::Reading,
        }
    }

    fn pull_from(&mut self, index: usize) -> (res: DeployAction)
        requires
            old(self).new_config is Some,
            old(self).new_config->0.wf(),
            !old(self).failed,
        ensures
            *final(self) == (Deploy { phase: final(self).phase, ..*old(self) }),
            final(self).wf(),
            pulls_from(*old(self), index as int, final(self).phase, res),
    {
        if index < self.images.len() {
            self.phase = DeployPhase::Pulling { index };
            DeployAction::Broadcast(
                NodeCommand::Pull { image: self.images[index].clone(), auth: None },
            )
        } else {
            self.phase = DeployPhase::AnnouncingPulls;
            DeployAction::Emit(Progress::Pulling)
        }
    }

    fn record(&mut self) -> (res: DeployAction)
        requires
            old(self).new_config is Some,
            !old(self).failed,
        ensures
            final(self).wf(),
            records(*old(self), *final(self), res),
    {
        self.phase = DeployPhase::Recording;
        match self.new_config.take() {
            Some(config) => DeployAction::Propose(Command::Deploy(config)),
            None => DeployAction::ReadState,
        }
    }

    fn close(&mut self) -> (res: DeployAction)
        ensures
            *final(self) == (Deploy { phase: DeployPhase::Closing, ..*old(self) }),
            final(self).wf(),
            closes(old(self).failed, final(self).phase, res),
    {
        self.phase = DeployPhase::Closing;
        DeployAction::Emit(Progress::Deployed { success: !self.failed })
    }

    fn change_from(&mut self, index: usize) -> (res: DeployAction)
        ensures
            kept(*old(self), *final(self), old(self).failed),
            final(self).wf(),
            changes_from(*old(self), index as int, old(self).failed, final(self).phase, res),
    {
        if index < self.plan.changed.len() {
            self.phase = DeployPhase::Changing { index };
            DeployAction::UpdateService { index }
        } else if self.failed && self.old_config.is_some() {
            self.phase = DeployPhase::RollingBack;
            match self.old_config.take() {
                Some(config) => DeployAction::Propose(Command::Deploy(config)),
                None => DeployAction::ReadState,
            }
        } else {
            self.close()
        }
    }

    fn add_from(&mut self, index: usize) -> (res: DeployAction)
        ensures
            kept(*old(self), *final(self), old(self).failed),
            final(self).wf(),
            adds_from(*old(self), index as int, old(self).failed, final(self).phase, res),
    {
        if index < self.plan.added.len() {
            self.phase = DeployPhase::Adding { index };
            DeployAction::StartService { index }
        } else {
            self.change_from(0)
        }
    }

    fn remove_from(&mut self, index: usize) -> (res: DeployAction)
        requires
            !old(self).failed,
        ensures
            kept(*old(self), *final(self), old(self).failed),
            final(self).wf(),
            removes_from(*old(self), index as int, final(self).phase, res),
    {
        if index < self.plan.removed.len() {
            self.phase = DeployPhase::Removing { index };
            DeployAction::StopService { index }
        } else {
            self.add_from(0)
        }
    }

    fn finish(&mut self, outcome: Result<(), DeployError>) -> (res: DeployAction)
        ensures
            *final(self) == (Deploy { phase: DeployPhase::Ended, ..*old(self) }),
            final(self).wf(),
            res == DeployAction::Finished(outcome),
    {
        self.phase = DeployPhase::Ended;
        DeployAction::Finished(outcome)
    }

    /// Takes what came of the last action and gives the next one.
    pub fn step(&mut self, event: DeployEvent) -> (res: DeployAction)
        requires
            old(self).wf(),
            old(self).phase.expects(event),
        ensures
            final(self).wf(),
            deploy_step(*old(self), event, *final(self), res),
    {
        match (self.phase, event) {
            (DeployPhase::Reading, DeployEvent::State(fsm)) => {
                if let Some(config) = &self.new_config {
                    let plan = diff_config(fsm.config.as_ref(), config);
                    self.images = images_to_pull(&plan);
                    self.plan = plan;
                }
                self.old_config = fsm.config;
                self.phase = DeployPhase::Announcing;
                DeployAction::Emit(Progress::Started)
            },
            (DeployPhase::Announcing, _) => {
                self.phase = DeployPhase::Checking;
                DeployAction::ReadState
            },
            (DeployPhase::Checking, DeployEvent::State(fsm)) => {
                let outcome = match &self.new_config {
                    Some(config) => match validate_secret_refs(config, &list_secret_names(&fsm)) {
                        Ok(()) => validate_resource_capacity(config, &list_capacities(&fsm)),
                        Err(e) => Err(e),
                    },
                    None => Ok(()),
                };
                match outcome {
                    Err(e) => self.finish(Err(e)),
                    Ok(()) => if self.images.len() > 0 {
                        self.pull_from(0)
                    } else {
                        self.record()
                    },
                }
            },
            (DeployPhase::Pulling { index }, _) => {
                assert(index < self.images.len());
                self.pull_from(index + 1)
            },
            (DeployPhase::AnnouncingPulls, _) => self.record(),
            (DeployPhase::Recording, DeployEvent::Proposed(outcome)) => match outcome {
                Proposed::Unreached(e) => self.finish(Err(DeployError::Node(NodeError::Raft(e)))),
                _ => self.remove_from(0),
            },
            (DeployPhase::Removing { index }, DeployEvent::Done(outcome)) => match outcome {
                Ok(()) => {
                    assert(index < self.plan.removed.len());
                    self.remove_from(index + 1)
                },
                Err(e) => self.finish(Err(e)),
            },
            (DeployPhase::Adding { index }, DeployEvent::Done(outcome)) => match outcome {
                Ok(()) => {
                    assert(index < self.plan.added.len());
                    self.add_from(index + 1)
                },
                Err(e) => {
                    self.failed = true;
                    self.phase = DeployPhase::ReportingAdded { index };
                    DeployAction::Emit(
                        Progress::Failed {
                            service: self.plan.added[index].0.clone(),
                            reason: e.to_text(),
                        },
                    )
                },
            },
            (DeployPhase::ReportingAdded { index }, _) => {
                assert(index < self.plan.added.len());
                self.add_from(index + 1)
            },
            (DeployPhase::Changing { index }, DeployEvent::Done(outcome)) => match outcome {
                Ok(()) => {
                    assert(index < self.plan.changed.len());
                    self.change_from(index + 1)
                },
                Err(e) => {
                    self.failed = true;
                    self.phase = DeployPhase::ReportingChanged { index };
                    DeployAction::Emit(
                        Progress::Failed {
                            service: self.plan.changed[index].0.clone(),
                            reason: e.to_text(),
                        },
                    )
                },
            },
            (DeployPhase::ReportingChanged { index }, _) => {
                assert(index < self.plan.changed.len());
                self.change_from(index + 1)
            },
            (DeployPhase::RollingBack, _) => self.close(),
            (DeployPhase::Closing, _) => self.finish(Ok(())),
            _ => DeployAction::ReadState,
        }
    }
}

/// A configuration is pulled for and recorded only when it has passed its
/// checks: the only way there leads through a check that refuses nothing.
pub proof fn only_checked_configurations_are_recorded(
    deploy: Deploy,
    event: DeployEvent,
    next: Deploy,
    action: DeployAction,
)
    requires
        deploy_step(deploy, event, next, action),
        next.phase is Pulling || next.phase is AnnouncingPulls || next.phase is Recording,
    ensures
        deploy.phase is Pulling || deploy.phase is AnnouncingPulls || (deploy.phase is Checking && (
        event matches DeployEvent::State(fsm) && refusal(deploy.new_config->0, fsm) is None)),
        next.phase is Recording ==> action == DeployAction::Propose(
            Command::Deploy(deploy.new_config->0),
        ),
{
}

/// A failure is never forgotten, and nothing but the failure of a service
/// counts as one.
pub proof fn failures_are_remembered(
    deploy: Deploy,
    event: DeployEvent,
    next: Deploy,
    action: DeployAction,
)
    requires
        deploy_step(deploy, event, next, action),
    ensures
        deploy.failed ==> next.failed,
        next.failed && !deploy.failed ==> event is Done && event->Done_0 is Err && (
        deploy.phase is Adding || deploy.phase is Changing),
{
}

/// When the services are done, a failed deploy over an old configuration
/// proposes exactly that configuration again, and any other deploy tells the
/// client right away. What the client hears of success is whether no service
/// failed.
pub proof fn failed_deploys_restore_the_old_configuration(
    deploy: Deploy,
    event: DeployEvent,
    next: Deploy,
    action: DeployAction,
)
    requires
        deploy_step(deploy, event, next, action),
    ensures
        next.phase is RollingBack ==> deploy.failed && deploy.old_config is Some && action
            == DeployAction::Propose(Command::Deploy(deploy.old_config->0)),
        next.phase is Closing && deploy.phase !is RollingBack ==> !deploy.failed
            || deploy.old_config is None,
        next.phase is Closing ==> action == DeployAction::Emit(
            Progress::Deployed { success: !next.failed },
        ),
{
}

/// What a whole deploy is made of: its states, what came of its actions, and
/// the actions, each of which is asked for in the state of the same place and
/// answered by the event of the same place.
pub struct DeployRun {
    pub deploys: Seq<Deploy>,
    pub events: Seq<DeployEvent>,
    pub actions: Seq<DeployAction>,
}

/// Proposals.
pub open spec fn proposals() -> spec_fn(DeployAction) -> bool {
    |action: DeployAction| action is Propose
}

/// Orders to stop, start or update a service.
pub open spec fn service_orders() -> spec_fn(DeployAction) -> bool {
    |action: DeployAction|
        action is StopService || action is StartService || action is UpdateService
}

/// The orders of a plan, one after another: removed services are stopped, then
/// added ones are started, then changed ones are updated.
pub open spec fn orders_of(plan: DeployPlan) -> Seq<DeployAction> {
    let removed = plan.removed@.len();
    let added = plan.added@.len();
    Seq::new(
        removed + added + plan.changed@.len(),
        |i: int|
            if i < removed {
                DeployAction::StopService { index: i as usize }
            } else if i < removed + added {
                DeployAction::StartService { index: (i - removed) as usize }
            } else {
                DeployAction::UpdateService { index: (i - removed - added) as usize }
            },
    )
}

/// Whether an event tells of the failure of a service.
pub open spec fn is_failure(event: DeployEvent) -> bool {
    event matches DeployEvent::Done(outcome) && outcome is Err
}

impl DeployRun {
    /// Whether the run begins and goes on as it should.
    pub open spec fn wf(self) -> bool {
        &&& self.deploys.len() == self.events.len() + 1
        &&& self.actions.len() == self.events.len() + 1
        &&& self.deploys[0].phase is Reading
        &&& self.deploys[0].new_config is Some
        &&& self.deploys[0].wf()
        &&& self.actions[0] is ReadState
        &&& forall|i: int|
            0 <= i < self.events.len() ==> self.deploys[i + 1].wf() && deploy_step(
                self.deploys[i],
                #[trigger] self.events[i],
                self.deploys[i + 1],
                self.actions[i + 1],
            )
    }

    /// The new configuration.
    pub open spec fn config(self) -> ClusterConfig {
        self.deploys[0].new_config->0
    }

    /// The configuration that was in place, as the state told that was read
    /// first.
    pub open spec fn old_config(self) -> Option<ClusterConfig> {
        self.events[0]->State_0.config
    }

    /// Whether a service has failed by the given place.
    pub open spec fn has_failed(self, n: int) -> bool {
        exists|i: int| 0 <= i < n && is_failure(#[trigger] self.events[i])
    }

    /// Whether the new configuration has passed its checks by the given place.
    pub open spec fn is_checked(self, n: int) -> bool {
        exists|i: int|
            0 <= i < n && self.deploys[i].phase is Checking && (
            #[trigger] self.events[i] matches DeployEvent::State(fsm) && refusal(
                self.config(),
                fsm,
            ) is None)
    }

    /// How many orders have been given.
    spec fn ordered(self, n: int) -> int {
        let plan = self.deploys[n].plan;
        let removed = plan.removed@.len();
        let added = plan.added@.len();
        match self.deploys[n].phase {
            DeployPhase::Removing { index } => index + 1,
            DeployPhase::Adding { index } => removed + index + 1,
            DeployPhase::ReportingAdded { index } => removed + index + 1,
            DeployPhase::Changing { index } => removed + added + index + 1,
            DeployPhase::ReportingChanged { index } => removed + added + index + 1,
            DeployPhase::RollingBack => (removed + added + plan.changed@.len()) as int,
            DeployPhase::Closing => (removed + added + plan.changed@.len()) as int,
            _ => 0,
        }
    }

    /// Whether nothing has been recorded yet.
    spec fn is_early(self, n: int) -> bool {
        let phase = self.deploys[n].phase;
        phase is Reading || phase is Announcing || phase is Checking || phase is Pulling
            || phase is AnnouncingPulls
    }

    /// What has been proposed by the phase.
    spec fn proposed(self, n: int) -> Seq<DeployAction> {
        let new = seq![DeployAction::Propose(Command::Deploy(self.config()))];
        if self.is_early(n) {
            Seq::empty()
        } else if (self.deploys[n].phase is RollingBack || self.deploys[n].phase is Closing)
            && self.deploys[n].failed && self.old_config() is Some {
            new.push(DeployAction::Propose(Command::Deploy(self.old_config()->0)))
        } else {
            new
        }
    }

    proof fn lemma_kept(self, n: int)
        requires
            self.wf(),
            0 < n < self.deploys.len(),
            !(self.deploys[n].phase is Ended),
        ensures
            self.deploys[n].wf(),
            self.deploys[n].plan == self.deploys[1].plan,
            !(self.deploys[n].phase is Reading),
            is_plan(self.deploys[1].plan, self.old_config(), self.config()),
            self.is_early(n) ==> self.deploys[n].new_config == Some(self.config()),
            !(self.deploys[n].phase is RollingBack || self.deploys[n].phase is Closing)
                ==> self.deploys[n].old_config == self.old_config(),
            self.deploys[n].failed == self.has_failed(n),
            self.deploys[n].phase is Closing ==> self.actions[n] == DeployAction::Emit(
                Progress::Deployed { success: !self.deploys[n].failed },
            ),
        decreases n,
    {
        let e = self.events[n - 1];
        if n > 1 {
            self.lemma_kept(n - 1);
        }
        self.lemma_failed(n);
    }

    proof fn lemma_recorded(self, n: int)
        requires
            self.wf(),
            0 < n < self.deploys.len(),
            !(self.deploys[n].phase is Ended),
            self.deploys[n].phase is Pulling || self.deploys[n].phase is AnnouncingPulls
                || !self.is_early(n),
        ensures
            self.is_checked(n),
        decreases n,
    {
        let e = self.events[n - 1];
        self.lemma_checked(n);
        if self.deploys[n - 1].phase is Checking {
            self.lemma_kept(n - 1);
        } else {
            self.lemma_recorded(n - 1);
        }
    }

    #[verifier::spinoff_prover]
    #[verifier::rlimit(60)]
    proof fn lemma_ordered(self, n: int)
        requires
            self.wf(),
            0 < n < self.deploys.len(),
            !(self.deploys[n].phase is Ended),
        ensures
            0 <= self.ordered(n) <= orders_of(self.deploys[1].plan).len(),
            select(self.actions.take(n + 1), service_orders()) == orders_of(
                self.deploys[1].plan,
            ).take(self.ordered(n)),
        decreases n,
    {
        let e = self.events[n - 1];
        let now = self.deploys[n];
        self.lemma_kept(n);
        lemma_select_take(self.actions, service_orders(), n);
        assert(now.plan.removed@.len() == now.plan.removed.len());
        assert(now.plan.added@.len() == now.plan.added.len());
        assert(now.plan.changed@.len() == now.plan.changed.len());
        if n == 1 {
            lemma_select_take(self.actions, service_orders(), 0);
            assert(self.actions.take(0) =~= Seq::empty());
        } else {
            self.lemma_kept(n - 1);
            self.lemma_ordered(n - 1);
            if service_orders()(self.actions[n]) {
                assert(self.ordered(n) == self.ordered(n - 1) + 1);
                assert(orders_of(self.deploys[1].plan)[self.ordered(n - 1)] == self.actions[n]);
            } else {
                assert(self.ordered(n) == self.ordered(n - 1));
            }
        }
        assert(select(self.actions.take(n + 1), service_orders()) =~= orders_of(
            self.deploys[1].plan,
        ).take(self.ordered(n)));
    }

    proof fn lemma_proposed(self, n: int)
        requires
            self.wf(),
            0 < n < self.deploys.len(),
            !(self.deploys[n].phase is Ended),
        ensures
            select(self.actions.take(n + 1), proposals()) == self.proposed(n),
        decreases n,
    {
        let e = self.events[n - 1];
        self.lemma_kept(n);
        lemma_select_take(self.actions, proposals(), n);
        if n == 1 {
            lemma_select_take(self.actions, proposals(), 0);
            assert(self.actions.take(0) =~= Seq::empty());
        } else {
            self.lemma_kept(n - 1);
            self.lemma_proposed(n - 1);
        }
        assert(select(self.actions.take(n + 1), proposals()) =~= self.proposed(n));
    }

    proof fn lemma_failed(self, n: int)
        requires
            0 < n <= self.events.len(),
        ensures
            self.has_failed(n) == (self.has_failed(n - 1) || is_failure(self.events[n - 1])),
            !self.has_failed(0),
    {
        if self.has_failed(n - 1) {
            let i = choose|i: int| 0 <= i < n - 1 && is_failure(#[trigger] self.events[i]);
            assert(is_failure(self.events[i]));
        }
    }

    proof fn lemma_checked(self, n: int)
        requires
            0 < n <= self.events.len(),
        ensures
            self.is_checked(n - 1) ==> self.is_checked(n),
            (self.deploys[n - 1].phase is Checking && (
            self.events[n - 1] matches DeployEvent::State(fsm) && refusal(self.config(), fsm)
                is None)) ==> self.is_checked(n),
    {
        if self.is_checked(n - 1) {
            let i = choose|i: int|
                0 <= i < n - 1 && self.deploys[i].phase is Checking && (
                #[trigger] self.events[i] matches DeployEvent::State(fsm) && refusal(
                    self.config(),
                    fsm,
                ) is None);
            assert(self.events[i] is State);
        }
    }

    /// A configuration is recorded only when it has passed its checks against
    /// the state of that time, and nothing is recorded before.
    pub proof fn recorded_configurations_were_checked(self, n: int)
        requires
            self.wf(),
            0 <= n < self.actions.len(),
            self.actions[n] is Propose,
        ensures
            self.is_checked(n),
    {
        if n > 0 {
            let e = self.events[n - 1];
            self.lemma_recorded(n);
        }
    }

    /// A deploy that ends well has given every order of its plan, one after
    /// another, and has told the client whether no service failed. It has
    /// proposed the new configuration, and after that the one that was in place
    /// where a service failed and there was one, and nothing else.
    pub proof fn good_deploys_carry_out_their_plan(self)
        requires
            self.wf(),
            self.actions.last() == DeployAction::Finished(Ok(())),
        ensures
            is_plan(self.deploys[1].plan, self.old_config(), self.config()),
            select(self.actions, service_orders()) == orders_of(self.deploys[1].plan),
            select(self.actions, proposals()) == {
                let new = seq![DeployAction::Propose(Command::Deploy(self.config()))];
                if self.has_failed(self.events.len() as int) && self.old_config() is Some {
                    new.push(DeployAction::Propose(Command::Deploy(self.old_config()->0)))
                } else {
                    new
                }
            },
            self.actions[self.actions.len() - 2] == DeployAction::Emit(
                Progress::Deployed { success: !self.has_failed(self.events.len() as int) },
            ),
    {
        let n = self.deploys.len() - 1;
        let e = self.events[n - 1];
        self.lemma_kept(n - 1);
        self.lemma_ordered(n - 1);
        self.lemma_proposed(n - 1);
        self.lemma_failed(n);
        lemma_select_take(self.actions, service_orders(), n);
        lemma_select_take(self.actions, proposals(), n);
        assert(self.actions.take(n + 1) =~= self.actions);
        let orders = orders_of(self.deploys[1].plan);
        assert(orders.take(orders.len() as int) =~= orders);
    }
}

/// How far a restart has come.
#[derive(Clone, Copy, Debug, PartialEq, Eq, Structural)]
pub enum RestartPhase {
    /// The service is looked up.
    Reading,
    /// The client hears of the start.
    Announcing,
    /// The service is updated.
    Updating,
    /// The client hears of the end.
    Closing,
    /// The outcome is known.
    Ended,
}

impl RestartPhase {
    /// Whether an event answers the action that led to the phase.
    pub open spec fn expects(self, event: DeployEvent) -> bool {
        match self {
            RestartPhase::Reading => event is State,
            RestartPhase::Announcing => event is Emitted,
            RestartPhase::Updating => event is Done,
            RestartPhase::Closing => event is Emitted,
            RestartPhase::Ended => false,
        }
    }
}

/// A restart of one service: the same definition, new containers. `def` is
/// the definition once it has been looked up.
#[derive(Debug, PartialEq, Eq)]
pub struct Restart {
    pub name: String,
    pub def: Option<ServiceDef>,
    pub phase: RestartPhase,
}

/// What one step does: the restart and the action that follow an event. The
/// action of the update is the one for the only service there is.
pub open spec fn restart_step(
    restart: Restart,
    event: DeployEvent,
    next: Restart,
    action: DeployAction,
) -> bool {
    &&& next.name == restart.name
    &&& match (restart.phase, event) {
        (RestartPhase::Reading, DeployEvent::State(fsm)) => match fsm.service(restart.name@) {
            Some(def) => {
                &&& next.def is Some
                &&& next.def->0@ == def@
                &&& next.phase is Announcing
                &&& action == DeployAction::Emit(
                    Progress::StartedService { service: restart.name },
                )
            },
            None => {
                &&& next.def == restart.def
                &&& next.phase is Ended
                &&& action == DeployAction::Finished(
                    Err(DeployError::Node(NodeError::ServiceNotFound(restart.name))),
                )
            },
        },
        (RestartPhase::Announcing, DeployEvent::Emitted) => next.def == restart.def
            && next.phase is Updating && action == (DeployAction::UpdateService { index: 0 }),
        (RestartPhase::Updating, DeployEvent::Done(outcome)) => next.def == restart.def
            && match outcome {
            Ok(()) => next.phase is Closing && action == DeployAction::Emit(Progress::Done),
            Err(e) => next.phase is Ended && action == DeployAction::Finished(Err(e)),
        },
        (RestartPhase::Closing, DeployEvent::Emitted) => next.def == restart.def
            && next.phase is Ended && action == DeployAction::Finished(Ok(())),
        _ => false,
    }
}

impl Restart {
    /// A restart that has not begun. The first action is to read the state.
    pub fn new(name: String) -> (res: Restart)
        ensures
            res == (Restart { name, def: None, phase: RestartPhase::Reading }),
    {
        Restart { name, def: None, phase: RestartPhase::Reading }
    }

    /// Takes what came of the last action and gives the next one.
    pub fn step(&mut self, event: DeployEvent) -> (res: DeployAction)
        requires
            old(self).phase.expects(event),
        ensures
            restart_step(*old(self), event, *final(self), res),
    {
        match (self.phase, event) {
            (RestartPhase::Reading, DeployEvent::State(fsm)) => match fsm.find_service(
                &self.name,
            ) {
                Some(def) => {
                    self.def = Some(def.clone());
                    self.phase = RestartPhase::Announcing;
                    DeployAction::Emit(Progress::StartedService { service: self.name.clone() })
                },
                None => {
                    self.phase = RestartPhase::Ended;
                    DeployAction::Finished(
                        Err(DeployError::Node(NodeError::ServiceNotFound(self.name.clone()))),
                    )
                },
            },
            (RestartPhase::Announcing, _) => {
                self.phase = RestartPhase::Updating;
                DeployAction::UpdateService { index: 0 }
            },
            (RestartPhase::Updating, DeployEvent::Done(outcome)) => match outcome {
                Ok(()) => {
                    self.phase = RestartPhase::Closing;
                    DeployAction::Emit(Progress::Done)
                },
                Err(e) => {
                    self.phase = RestartPhase::Ended;
                    DeployAction::Finished(Err(e))
                },
            },
            (RestartPhase::Closing, _) => {
                self.phase = RestartPhase::Ended;
                DeployAction::Finished(Ok(()))
            },
            _ => DeployAction::ReadState,
        }
    }
}

/// The images that are pulled are exactly those of the added and the changed
/// services.
pub proof fn needed_images_are_pulled(plan: DeployPlan)
    ensures
        forall|k: int|
            0 <= k < plan.added@.len() ==> listed(
                plan_images(plan),
                (#[trigger] plan.added@[k]).1.image@,
            ),
        forall|k: int|
            0 <= k < plan.changed@.len() ==> listed(
                plan_images(plan),
                (#[trigger] plan.changed@[k]).1.image@,
            ),
        forall|i: int|
            #![trigger plan_images(plan)[i]]
            0 <= i < plan_images(plan).len() ==> (exists|k: int|
                0 <= k < plan.added@.len() && (#[trigger] plan.added@[k]).1.image
                    == plan_images(plan)[i]) || (exists|k: int|
                0 <= k < plan.changed@.len() && (#[trigger] plan.changed@[k]).1.image
                    == plan_images(plan)[i]),
{
    let all = images_of(plan.added@) + images_of(plan.changed@);
    assert forall|k: int| 0 <= k < plan.added@.len() implies listed(
        plan_images(plan),
        (#[trigger] plan.added@[k]).1.image@,
    ) by {
        lemma_unique_complete(all, k);
    }
    assert forall|k: int| 0 <= k < plan.changed@.len() implies listed(
        plan_images(plan),
        (#[trigger] plan.changed@[k]).1.image@,
    ) by {
        lemma_unique_complete(all, plan.added@.len() + k);
    }
    assert forall|i: int|
        #![trigger plan_images(plan)[i]]
        0 <= i < plan_images(plan).len() implies (exists|k: int|
        0 <= k < plan.added@.len() && (#[trigger] plan.added@[k]).1.image == plan_images(plan)[i])
        || (exists|k: int|
        0 <= k < plan.changed@.len() && (#[trigger] plan.changed@[k]).1.image
            == plan_images(plan)[i]) by {
        let m = lemma_unique_from(all, i);
        if m < plan.added@.len() {
            assert(plan.added@[m].1.image == all[m]);
        } else {
            assert(plan.changed@[m - plan.added@.len()].1.image == all[m]);
        }
    }
}

proof fn lemma_unique_from(s: Seq<String>, i: int) -> (m: int)
    requires
        0 <= i < unique(s).len(),
    ensures
        0 <= m < s.len(),
        s[m] == unique(s)[i],
    decreases s.len(),
{
    let before = unique(s.drop_last());
    if i < before.len() {
        lemma_unique_from(s.drop_last(), i)
    } else {
        s.len() - 1
    }
}

/// A configuration that is not refused can run: there is a node that takes
/// work; every secret that a service or a task refers to is there; and every
/// service and task has a node that takes work and is large enough for all that
/// it needs.
pub proof fn accepted_configurations_can_run(config: ClusterConfig, fsm: FsmState)
    requires
        refusal(config, fsm) is None,
    ensures
        exists|n: int| 0 <= n < fsm.nodes@.len() && (#[trigger] fsm.nodes@[n]).status is Ready,
        forall|s: int|
            #![trigger config.services@[s]]
            0 <= s < config.services@.len() ==> exists|n: int|
                {
                    &&& 0 <= n < fsm.nodes@.len()
                    &&& (#[trigger] fsm.nodes@[n]).status is Ready
                    &&& config.services@[s].1.resources.cpu <= fsm.nodes@[n].resources.cpu_total
                    &&& config.services@[s].1.resources.memory
                        <= fsm.nodes@[n].resources.memory_total
                },
        forall|t: int|
            #![trigger config.tasks@[t]]
            0 <= t < config.tasks@.len() ==> exists|n: int|
                {
                    &&& 0 <= n < fsm.nodes@.len()
                    &&& (#[trigger] fsm.nodes@[n]).status is Ready
                    &&& config.tasks@[t].1.resources.cpu <= fsm.nodes@[n].resources.cpu_total
                    &&& config.tasks@[t].1.resources.memory <= fsm.nodes@[n].resources.memory_total
                },
        forall|s: int, v: int, p: int|
            {
                &&& 0 <= s < config.services@.len()
                &&& 0 <= v < config.services@[s].1.env@.len()
                &&& config.services@[s].1.env@[v].1 is Interpolated
                &&& 0 <= p < config.services@[s].1.env@[v].1->parts@.len()
                &&& (#[trigger] config.services@[s].1.env@[v].1->parts@[p]) is Secret
            } ==> exists|k: int|
                0 <= k < fsm.secrets@.len() && (#[trigger] fsm.secrets@[k]).name@
                    == config.services@[s].1.env@[v].1->parts@[p]->name@,
        forall|t: int, v: int, p: int|
            {
                &&& 0 <= t < config.tasks@.len()
                &&& 0 <= v < config.tasks@[t].1.env@.len()
                &&& config.tasks@[t].1.env@[v].1 is Interpolated
                &&& 0 <= p < config.tasks@[t].1.env@[v].1->parts@.len()
                &&& (#[trigger] config.tasks@[t].1.env@[v].1->parts@[p]) is Secret
            } ==> exists|k: int|
                0 <= k < fsm.secrets@.len() && (#[trigger] fsm.secrets@[k]).name@
                    == config.tasks@[t].1.env@[v].1->parts@[p]->name@,
{
    let known = secret_names(fsm);
    let caps = capacities(fsm);
    let chosen = select(fsm.nodes@, ready());
    lemma_selected(fsm.nodes@, ready());
    assert forall|i: int| 0 <= i < caps.len() implies exists|n: int|
        0 <= n < fsm.nodes@.len() && (#[trigger] fsm.nodes@[n]).status is Ready
            && fsm.nodes@[n].resources == #[trigger] caps[i] by {
        assert(ready()(chosen[i]));
        let n = fsm.nodes@.index_of(chosen[i]);
        assert(fsm.nodes@[n] == chosen[i]);
    }
    assert(caps.len() > 0);
    assert(exists|n: int|
        0 <= n < fsm.nodes@.len() && (#[trigger] fsm.nodes@[n]).status is Ready
            && fsm.nodes@[n].resources == caps[0]);
    checked_configurations_fit(config, caps);
    assert forall|s: int|
        #![trigger config.services@[s]]
        0 <= s < config.services@.len() implies exists|n: int|
        {
            &&& 0 <= n < fsm.nodes@.len()
            &&& (#[trigger] fsm.nodes@[n]).status is Ready
            &&& config.services@[s].1.resources.cpu <= fsm.nodes@[n].resources.cpu_total
            &&& config.services@[s].1.resources.memory <= fsm.nodes@[n].resources.memory_total
        } by {
        let i = choose|i: int|
            0 <= i < caps.len() && config.services@[s].1.resources.cpu <= (
            #[trigger] caps[i]).cpu_total && config.services@[s].1.resources.memory
                <= caps[i].memory_total;
        let n = choose|n: int|
            0 <= n < fsm.nodes@.len() && (#[trigger] fsm.nodes@[n]).status is Ready
                && fsm.nodes@[n].resources == caps[i];
        assert(fsm.nodes@[n].status is Ready);
    }
    assert forall|t: int|
        #![trigger config.tasks@[t]]
        0 <= t < config.tasks@.len() implies exists|n: int|
        {
            &&& 0 <= n < fsm.nodes@.len()
            &&& (#[trigger] fsm.nodes@[n]).status is Ready
            &&& config.tasks@[t].1.resources.cpu <= fsm.nodes@[n].resources.cpu_total
            &&& config.tasks@[t].1.resources.memory <= fsm.nodes@[n].resources.memory_total
        } by {
        let i = choose|i: int|
            0 <= i < caps.len() && config.tasks@[t].1.resources.cpu <= (
            #[trigger] caps[i]).cpu_total && config.tasks@[t].1.resources.memory
                <= caps[i].memory_total;
        let n = choose|n: int|
            0 <= n < fsm.nodes@.len() && (#[trigger] fsm.nodes@[n]).status is Ready
                && fsm.nodes@[n].resources == caps[i];
        assert(fsm.nodes@[n].status is Ready);
    }
    assert forall|name: Seq<char>| knows(known, name) implies exists|k: int|
        0 <= k < fsm.secrets@.len() && (#[trigger] fsm.secrets@[k]).name@ == name by {
        let k = choose|k: int| 0 <= k < known.len() && (#[trigger] known[k])@ == name;
        assert(fsm.secrets@[k].name@ == name);
    }
    assert forall|s: int, v: int, p: int|
        {
            &&& 0 <= s < config.services@.len()
            &&& 0 <= v < config.services@[s].1.env@.len()
            &&& config.services@[s].1.env@[v].1 is Interpolated
            &&& 0 <= p < config.services@[s].1.env@[v].1->parts@.len()
            &&& (#[trigger] config.services@[s].1.env@[v].1->parts@[p]) is Secret
        } implies exists|k: int|
        0 <= k < fsm.secrets@.len() && (#[trigger] fsm.secrets@[k]).name@
            == config.services@[s].1.env@[v].1->parts@[p]->name@ by {
        validated_secrets_are_known(config, known, s, v, p);
    }
    assert forall|t: int, v: int, p: int|
        {
            &&& 0 <= t < config.tasks@.len()
            &&& 0 <= v < config.tasks@[t].1.env@.len()
            &&& config.tasks@[t].1.env@[v].1 is Interpolated
            &&& 0 <= p < config.tasks@[t].1.env@[v].1->parts@.len()
            &&& (#[trigger] config.tasks@[t].1.env@[v].1->parts@[p]) is Secret
        } implies exists|k: int|
        0 <= k < fsm.secrets@.len() && (#[trigger] fsm.secrets@[k]).name@
            == config.tasks@[t].1.env@[v].1->parts@[p]->name@ by {
        validated_task_secrets_are_known(config, known, t, v, p);
    }
}

/// A configuration is refused only for one of three reasons: a secret is
/// missing, no node takes work, or something fits on no node that does.
pub proof fn refused_configurations_cannot_run(config: ClusterConfig, fsm: FsmState)
    requires
        refusal(config, fsm) is Some,
    ensures
        ({
            ||| missing_secrets(config, secret_names(fsm)).len() > 0
            ||| forall|n: int|
                0 <= n < fsm.nodes@.len() ==> !((#[trigger] fsm.nodes@[n]).status is Ready)
            ||| exists|s: int|
                0 <= s < config.services@.len() && (forall|n: int|
                    #![trigger fsm.nodes@[n]]
                    0 <= n < fsm.nodes@.len() && fsm.nodes@[n].status is Ready ==> (
                    #[trigger] config.services@[s]).1.resources.cpu
                        > fsm.nodes@[n].resources.cpu_total
                        || config.services@[s].1.resources.memory
                        > fsm.nodes@[n].resources.memory_total)
            ||| exists|t: int|
                0 <= t < config.tasks@.len() && (forall|n: int|
                    #![trigger fsm.nodes@[n]]
                    0 <= n < fsm.nodes@.len() && fsm.nodes@[n].status is Ready ==> (
                    #[trigger] config.tasks@[t]).1.resources.cpu
                        > fsm.nodes@[n].resources.cpu_total || config.tasks@[t].1.resources.memory
                        > fsm.nodes@[n].resources.memory_total)
        }),
{
    let caps = capacities(fsm);
    let chosen = select(fsm.nodes@, ready());
    lemma_selected(fsm.nodes@, ready());
    assert forall|n: int|
        0 <= n < fsm.nodes@.len() && (#[trigger] fsm.nodes@[n]).status is Ready implies exists|
        i: int,
    |
        0 <= i < caps.len() && #[trigger] caps[i] == fsm.nodes@[n].resources by {
        assert(ready()(fsm.nodes@[n]));
        let i = chosen.index_of(fsm.nodes@[n]);
        assert(caps[i] == fsm.nodes@[n].resources);
    }
    if missing_secrets(config, secret_names(fsm)).len() == 0 && caps.len() > 0 {
        only_what_fits_nowhere_is_refused(config, caps, 0);
        if exists|s: int|
            0 <= s < config.services@.len() && (#[trigger] config.services@[s]).0@ == oversized(
                config,
                caps,
            )[0] && forall|i: int|
                0 <= i < caps.len() ==> config.services@[s].1.resources.cpu > (
                #[trigger] caps[i]).cpu_total || config.services@[s].1.resources.memory
                    > caps[i].memory_total {
            let s = choose|s: int|
                0 <= s < config.services@.len() && (#[trigger] config.services@[s]).0@ == oversized(
                    config,
                    caps,
                )[0] && forall|i: int|
                    0 <= i < caps.len() ==> config.services@[s].1.resources.cpu > (
                    #[trigger] caps[i]).cpu_total || config.services@[s].1.resources.memory
                        > caps[i].memory_total;
            assert(config.services@[s].0@ == oversized(config, caps)[0]);
        } else {
            let t = choose|t: int|
                0 <= t < config.tasks@.len() && (#[trigger] config.tasks@[t]).0@ == oversized(
                    config,
                    caps,
                )[0] && forall|i: int|
                    0 <= i < caps.len() ==> config.tasks@[t].1.resources.cpu > (
                    #[trigger] caps[i]).cpu_total || config.tasks@[t].1.resources.memory
                        > caps[i].memory_total;
            assert(config.tasks@[t].0@ == oversized(config, caps)[0]);
        }
    }
}

/// Each image is pulled on every node, one after another, before the client
/// hears of the pulls; a failed service is told of by its own name and reason.
pub proof fn pulls_and_failures_are_told_as_they_are(
    deploy: Deploy,
    event: DeployEvent,
    next: Deploy,
    action: DeployAction,
)
    requires
        deploy.wf(),
        next.wf(),
        deploy_step(deploy, event, next, action),
    ensures
        next.phase matches DeployPhase::Pulling { index } ==> {
            &&& action matches DeployAction::Broadcast(NodeCommand::Pull { image, auth })
            &&& image == next.images@[index as int]
            &&& auth is None
            &&& deploy.phase matches DeployPhase::Pulling { index: before } ==> index == before + 1
            &&& !(deploy.phase is Pulling) ==> index == 0
        },
        next.phase is AnnouncingPulls ==> deploy.phase == (DeployPhase::Pulling {
            index: (deploy.images@.len() - 1) as usize,
        }),
        deploy.phase is Checking && event is State && refusal(
            deploy.new_config->0,
            event->State_0,
        ) is Some ==> action is Finished && action->Finished_0 is Err,
        deploy.phase matches DeployPhase::Adding { index } ==> (event matches DeployEvent::Done(
            Err(e),
        ) ==> (action matches DeployAction::Emit(Progress::Failed { service, reason }) && service
            == deploy.plan.added@[index as int].0 && reason@ == e.message() && next.failed)),
        deploy.phase matches DeployPhase::Changing { index } ==> (event matches DeployEvent::Done(
            Err(e),
        ) ==> (action matches DeployAction::Emit(Progress::Failed { service, reason }) && service
            == deploy.plan.changed@[index as int].0 && reason@ == e.message() && next.failed)),
        deploy.phase is Removing ==> (event matches DeployEvent::Done(Err(e)) ==> action
            == DeployAction::Finished(Err(e))),
{
    assert(deploy.images@.len() == deploy.images.len());
    assert(next.images@.len() == next.images.len());
}

/// A restart updates the service with the definition that the configuration has
/// for its name, tells the client, and ends as the update ended; a service that
/// the configuration does not have is refused by name.
pub proof fn restarts_use_the_configured_definition(
    restart: Restart,
    event: DeployEvent,
    next: Restart,
    action: DeployAction,
)
    requires
        restart_step(restart, event, next, action),
    ensures
        restart.phase is Reading ==> {
            let fsm = event->State_0;
            &&& next.phase is Announcing ==> fsm.config is Some && exists|i: int|
                {
                    &&& 0 <= i < fsm.config->0.services@.len()
                    &&& (#[trigger] fsm.config->0.services@[i]).0@ == restart.name@
                    &&& next.def is Some
                    &&& next.def->0@ == fsm.config->0.services@[i].1@
                }
            &&& next.phase is Announcing ==> action == DeployAction::Emit(
                Progress::StartedService { service: restart.name },
            )
            &&& !(next.phase is Announcing) ==> action == DeployAction::Finished(
                Err(DeployError::Node(NodeError::ServiceNotFound(restart.name))),
            ) && (fsm.config is None || forall|i: int|
                0 <= i < fsm.config->0.services@.len() ==> (
                #[trigger] fsm.config->0.services@[i]).0@ != restart.name@)
        },
        restart.phase is Announcing ==> action is UpdateService && next.def == restart.def,
        event matches DeployEvent::Done(Err(e)) ==> action == DeployAction::Finished(Err(e)),
        (action matches DeployAction::Finished(outcome) && outcome is Ok) ==> restart.phase
            is Closing,
        next.phase is Closing ==> event is Done && event->Done_0 is Ok && action
            == DeployAction::Emit(Progress::Done),
{
    if restart.phase is Reading {
        definitions_are_found_by_name(event->State_0, restart.name@);
    }
}

} // verus!
