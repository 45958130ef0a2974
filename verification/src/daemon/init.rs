//! Making a new cluster of one node.
use crate::config::AllocId;
use crate::daemon::cloud::{
    build_volume_driver, detect_cloud_metadata, driver_of, is_known, known_provider, text_view, told,
    Answer,
};
use crate::daemon::identity::{acme_asked, NodeIdentity};
use crate::daemon::join::{API_PORT, RAFT_PORT};
use crate::daemon::start::{
    advertised, api_url, api_url_text, fails, is_advertised, is_secondary, labelled, lines_are,
    primary_config, primary_of, registration, registration_of, secondary_config, MeshIdentity,
    StartAction, StartEvent, WIREGUARD_SUBNET,
};
use crate::daemon::support::{detect_resources, generate_id, generate_token, is_hex, untaken};
use crate::net::{ip_text, IpAddr, SocketAddr};
use crate::text::copy_option;
use vstd::prelude::*;
use vstd::string::*;

verus! {

/// What the one who makes a cluster asks for.
#[derive(Debug, PartialEq, Eq)]
pub struct InitOptions {
    pub token: Option<String>,
    pub advertise: Option<String>,
    pub provider: Option<String>,
    pub provider_token: Option<String>,
    pub acme_email: Option<String>,
    pub acme_staging: bool,
}

/// How far the work has come.
#[derive(Clone, Copy, Debug, PartialEq, Eq, Structural)]
pub enum InitPhase {
    MakingMesh,
    MakingKey,
    SavingIdentity,
    OpeningRaft,
    InitializingRaft,
    StartingSubsystems,
    AskingCloud,
    SavingRegion,
    Registering,
    StartingSecondary,
    StartingPrimary,
    StartingListener,
    WritingPid,
    Running,
    ShuttingDown,
    RemovingPid,
    Ended,
}

impl InitPhase {
    /// Whether the action that led to the phase can fail.
    pub open spec fn can_fail(self) -> bool {
        match self {
            InitPhase::AskingCloud => false,
            InitPhase::StartingListener => false,
            InitPhase::WritingPid => false,
            InitPhase::Running => false,
            InitPhase::ShuttingDown => false,
            InitPhase::RemovingPid => false,
            InitPhase::Ended => false,
            _ => true,
        }
    }

    /// Whether an event answers the action that led to the phase.
    pub open spec fn expects(self, event: StartEvent) -> bool {
        match event {
            StartEvent::Failed(_) => self.can_fail(),
            StartEvent::MeshReady(_) => self is MakingMesh,
            StartEvent::CloudAnswered { .. } => self is AskingCloud,
            StartEvent::Done => !(self is MakingMesh) && !(self is AskingCloud) && !(self is Ended),
            _ => false,
        }
    }
}

/// Making a cluster of this node alone. The mesh is told of once it is set up.
#[derive(Debug, PartialEq, Eq)]
pub struct Init {
    pub identity: NodeIdentity,
    pub mesh: MeshIdentity,
    pub instance_id: Option<String>,
    pub phase: InitPhase,
}

/// Whether a node is the first one of a new cluster, as asked for.
pub open spec fn is_first_node(identity: NodeIdentity, options: InitOptions) -> bool {
    &&& is_hex(identity.node_id@, 8)
    &&& identity.raft_id == 1
    &&& match options.token {
        Some(token) => identity.cluster_token == token,
        None => is_hex(identity.cluster_token@, 16),
    }
    &&& identity.rpc_port == API_PORT
    &&& is_advertised(identity.advertise_addr@, options.advertise)
    &&& identity.provider == options.provider
    &&& identity.provider_token == options.provider_token
    &&& identity.region is None
    &&& identity.wireguard_subnet@ == WIREGUARD_SUBNET@
    &&& identity.peers@.len() == 0
    &&& identity.acme_email == options.acme_email
    &&& identity.acme_staging == if options.acme_staging {
        Some(true)
    } else {
        None
    }
}

/// Whether the node enters itself into the replicated state.
pub open spec fn registers(m: Init, phase: InitPhase, action: StartAction) -> bool {
    &&& phase is Registering
    &&& exists|cpus: nat, memory: u64|
        cpus >= 1 && action == StartAction::Propose(
            registration_of(m.identity, m.mesh, m.instance_id, #[trigger] untaken(cpus, memory)),
        )
}

/// What is printed when the cluster is there.
pub open spec fn init_lines(m: Init) -> Seq<Seq<char>> {
    let identity = m.identity;
    seq![
        "Mill cluster initialized."@,
        "  Node ID:    "@ + identity.node_id@,
        "  API:        "@ + api_url(identity.advertise_addr@),
        "  Token:      "@ + identity.cluster_token@,
        "  Tunnel IP:  "@ + ip_text(m.mesh.tunnel_ip),
        ""@,
        "To join another node:"@,
        "  mill join "@ + identity.advertise_addr@ + " --token "@ + identity.cluster_token@,
    ]
}

/// What one step does: the work and the action that follow an event.
pub open spec fn init_step(m: Init, event: StartEvent, next: Init, action: StartAction) -> bool {
    let phase = next.phase;
    match (m.phase, event) {
        (InitPhase::MakingMesh, StartEvent::MeshReady(mesh)) => {
            &&& next == (Init { mesh, phase: InitPhase::MakingKey, ..m })
            &&& action is NewClusterKey
        },
        (InitPhase::AskingCloud, StartEvent::CloudAnswered { id, region }) => {
            &&& next.mesh == m.mesh
            &&& text_view(next.instance_id) == told(id)
            &&& if told(region) is Some {
                &&& next.identity == (NodeIdentity { region: next.identity.region, ..m.identity })
                &&& text_view(next.identity.region) == told(region)
                &&& phase is SavingRegion
                &&& action is SaveIdentity
            } else {
                next.identity == m.identity && registers(next, phase, action)
            }
        },
        (before, event) => {
            &&& next == (Init { phase, ..m })
            &&& match event {
                StartEvent::Failed(error) => phase is Ended && fails(action, error),
                _ => match before {
                    InitPhase::MakingKey => phase is SavingIdentity && action is SaveIdentity,
                    InitPhase::SavingIdentity => {
                        &&& phase is OpeningRaft
                        &&& action matches StartAction::OpenRaft { raft_id, peers }
                        &&& raft_id == m.identity.raft_id
                        &&& peers@.len() == 0
                    },
                    InitPhase::OpeningRaft => phase is InitializingRaft && action is InitializeRaft,
                    InitPhase::InitializingRaft => {
                        &&& phase is StartingSubsystems
                        &&& action matches StartAction::StartSubsystems { acme }
                        &&& acme_asked(m.identity, acme)
                    },
                    InitPhase::StartingSubsystems => if is_known(m.identity.provider) {
                        phase is AskingCloud && action is AskCloud
                    } else {
                        registers(m, phase, action)
                    },
                    InitPhase::SavingRegion => registers(m, phase, action),
                    InitPhase::Registering => {
                        &&& phase is StartingSecondary
                        &&& action matches StartAction::StartSecondary(config)
                        &&& is_secondary(
                            config,
                            m.identity.node_id,
                            m.mesh.tunnel_ip,
                            Seq::<AllocId>::empty(),
                        )
                    },
                    InitPhase::StartingSecondary => {
                        &&& phase is StartingPrimary
                        &&& action == StartAction::StartPrimary(
                            primary_of(
                                m.identity,
                                true,
                                driver_of(
                                    m.identity.provider,
                                    m.identity.provider_token,
                                    m.identity.region,
                                ),
                            ),
                        )
                    },
                    InitPhase::StartingPrimary => phase is StartingListener && action == (
                    StartAction::StartRaftListener {
                        address: SocketAddr { ip: m.mesh.tunnel_ip, port: RAFT_PORT },
                    }),
                    InitPhase::StartingListener => phase is WritingPid && action is WritePid,
                    InitPhase::WritingPid => {
                        &&& phase is Running
                        &&& action matches StartAction::Run { lines }
                        &&& lines_are(lines@, init_lines(m))
                    },
                    InitPhase::Running => phase is ShuttingDown && action is ShutDown,
                    InitPhase::ShuttingDown => phase is RemovingPid && action is RemovePid,
                    InitPhase::RemovingPid => phase is Ended && (action matches StartAction::Finish(
                        result,
                    ) && result is Ok),
                    _ => false,
                },
            }
        },
    }
}

impl Init {
    /// Whether the cloud is asked only where it is known.
    pub open spec fn wf(self) -> bool {
        self.phase is AskingCloud ==> is_known(self.identity.provider)
    }

    /// Begins making a cluster, and gives the first action.
    pub fn begin(options: InitOptions) -> (res: (Init, StartAction))
        ensures
            res.0.wf(),
            is_first_node(res.0.identity, options),
            res.0.instance_id is None,
            res.0.phase is MakingMesh,
            res.1 matches StartAction::InitMesh { subnet } && subnet@ == WIREGUARD_SUBNET@,
    {
        let node_id = generate_id();
        let cluster_token = match options.token {
            Some(token) => token,
            None => generate_token(),
        };
        let acme_staging: Option<bool> = if options.acme_staging {
            Some(true)
        } else {
            None
        };
        let identity = NodeIdentity {
            node_id,
            raft_id: 1,
            cluster_token,
            rpc_port: API_PORT,
            advertise_addr: advertised(options.advertise),
            provider: options.provider,
            provider_token: options.provider_token,
            region: None,
            wireguard_subnet: WIREGUARD_SUBNET.to_owned(),
            peers: Vec::new(),
            acme_email: options.acme_email,
            acme_staging,
        };
        let init = Init {
            identity,
            mesh: MeshIdentity { tunnel_ip: IpAddr::V4(0), public_key: String::new() },
            instance_id: None,
            phase: InitPhase::MakingMesh,
        };
        (init, StartAction::InitMesh { subnet: WIREGUARD_SUBNET.to_owned() })
    }

    fn register(&mut self) -> (res: StartAction)
        ensures
            *final(self) == (Init { phase: final(self).phase, ..*old(self) }),
            registers(*old(self), final(self).phase, res),
    {
        self.phase = InitPhase::Registering;
        StartAction::Propose(
            registration(
                &self.identity,
                &self.mesh,
                copy_option(&self.instance_id),
                detect_resources(),
            ),
        )
    }

    fn announcement(&self) -> (res: Vec<String>)
        ensures
            lines_are(res@, init_lines(*self)),
    {
        let mut invitation = labelled("  mill join ", &self.identity.advertise_addr);
        invitation.append(" --token ");
        invitation.append(self.identity.cluster_token.as_str());
        let mut lines: Vec<String> = Vec::new();
        lines.push("Mill cluster initialized.".to_owned());
        lines.push(labelled("  Node ID:    ", &self.identity.node_id));
        lines.push(labelled("  API:        ", &api_url_text(&self.identity.advertise_addr)));
        lines.push(labelled("  Token:      ", &self.identity.cluster_token));
        lines.push(labelled("  Tunnel IP:  ", &self.mesh.tunnel_ip.to_text()));
        lines.push("".to_owned());
        lines.push("To join another node:".to_owned());
        lines.push(invitation);
        lines
    }

    /// Takes what came of the last action and gives the next one.
    pub fn step(&mut self, event: StartEvent) -> (res: StartAction)
        requires
            old(self).wf(),
            old(self).phase.expects(event),
        ensures
            final(self).wf(),
            init_step(*old(self), event, *final(self), res),
    {
        match (self.phase, event) {
            (_, StartEvent::Failed(error)) => {
                self.phase = InitPhase::Ended;
                StartAction::Finish(Err(error))
            },
            (_, StartEvent::MeshReady(mesh)) => {
                self.mesh = mesh;
                self.phase = InitPhase::MakingKey;
                StartAction::NewClusterKey
            },
            (_, StartEvent::CloudAnswered { id, region }) => self.cloud_answered(id, region),
            (InitPhase::MakingKey, _) => {
                self.phase = InitPhase::SavingIdentity;
                StartAction::SaveIdentity
            },
            (InitPhase::SavingIdentity, _) => {
                self.phase = InitPhase::OpeningRaft;
                StartAction::OpenRaft { raft_id: self.identity.raft_id, peers: Vec::new() }
            },
            (InitPhase::OpeningRaft, _) => {
                self.phase = InitPhase::InitializingRaft;
                StartAction::InitializeRaft
            },
            (InitPhase::InitializingRaft, _) => {
                self.phase = InitPhase::StartingSubsystems;
                StartAction::StartSubsystems { acme: self.identity.acme_config() }
            },
            (InitPhase::StartingSubsystems, _) => {
                if known_provider(&self.identity.provider) {
                    self.phase = InitPhase::AskingCloud;
                    StartAction::AskCloud
                } else {
                    self.register()
                }
            },
            (InitPhase::SavingRegion, _) => self.register(),
            (InitPhase::Registering, _) => {
                self.phase = InitPhase::StartingSecondary;
                let none: Vec<AllocId> = Vec::new();
                assert(none@ =~= Seq::<AllocId>::empty());
                StartAction::StartSecondary(
                    secondary_config(&self.identity.node_id, self.mesh.tunnel_ip, none),
                )
            },
            (InitPhase::StartingSecondary, _) => {
                self.phase = InitPhase::StartingPrimary;
                let driver = build_volume_driver(
                    &self.identity.provider,
                    &self.identity.provider_token,
                    &self.identity.region,
                );
                StartAction::StartPrimary(primary_config(&self.identity, true, driver))
            },
            (InitPhase::StartingPrimary, _) => {
                self.phase = InitPhase::StartingListener;
                StartAction::StartRaftListener {
                    address: SocketAddr { ip: self.mesh.tunnel_ip, port: RAFT_PORT },
                }
            },
            (InitPhase::StartingListener, _) => {
                self.phase = InitPhase::WritingPid;
                StartAction::WritePid
            },
            (InitPhase::WritingPid, _) => {
                let lines = self.announcement();
                self.phase = InitPhase::Running;
                StartAction::Run { lines }
            },
            (InitPhase::Running, _) => {
                self.phase = InitPhase::ShuttingDown;
                StartAction::ShutDown
            },
            (InitPhase::ShuttingDown, _) => {
                self.phase = InitPhase::RemovingPid;
                StartAction::RemovePid
            },
            _ => {
                self.phase = InitPhase::Ended;
                StartAction::Finish(Ok(()))
            },
        }
    }

    fn cloud_answered(
        &mut self,
        id: Option<Answer>,
        region: Option<Answer>,
    ) -> (res: StartAction)
        requires
            old(self).phase is AskingCloud,
            is_known(old(self).identity.provider),
        ensures
            init_step(
                *old(self),
                StartEvent::CloudAnswered { id, region },
                *final(self),
                res,
            ),
    {
        let cloud = detect_cloud_metadata(&self.identity.provider, &id, &region);
        self.instance_id = cloud.instance_id;
        if cloud.region.is_some() {
            self.identity.region = cloud.region;
            self.phase = InitPhase::SavingRegion;
            StartAction::SaveIdentity
        } else {
            self.register()
        }
    }
}

/// The node is written down before the replicated state is opened, and the
/// state knows of the node before anything runs on it.
pub proof fn nodes_are_known_before_they_run(
    m: Init,
    event: StartEvent,
    next: Init,
    action: StartAction,
)
    requires
        m.phase.expects(event),
        init_step(m, event, next, action),
    ensures
        action is OpenRaft ==> m.phase is SavingIdentity,
        next.phase is SavingIdentity ==> action is SaveIdentity,
        action is StartSecondary ==> m.phase is Registering,
        next.phase is Registering ==> action is Propose,
{
}

/// The first node of a cluster is number one, has no peers, takes the token that it is
/// given, and keeps what else it is told.
pub proof fn first_nodes_are_as_asked(identity: NodeIdentity, options: InitOptions)
    requires
        is_first_node(identity, options),
    ensures
        identity.raft_id == 1,
        identity.peers@.len() == 0,
        options.token matches Some(token) ==> identity.cluster_token == token,
        options.token is None ==> identity.cluster_token@.len() == 32,
        identity.node_id@.len() == 16,
        options.advertise matches Some(given) ==> identity.advertise_addr@ == given@,
        identity.provider == options.provider,
        identity.provider_token == options.provider_token,
        identity.acme_email == options.acme_email,
        identity.acme_staging == Some(true) <==> options.acme_staging,
        identity.region is None,
        identity.wireguard_subnet@ == "10.99.0.0/16"@,
        identity.rpc_port == 4400,
{
}

/// Making a cluster goes step by step: each step follows the one before where that one
/// was done, an error ends the work with that error, and the cloud is asked where it is
/// known and nowhere else.
pub proof fn clusters_are_made_step_by_step(
    m: Init,
    event: StartEvent,
    next: Init,
    action: StartAction,
)
    requires
        m.phase.expects(event),
        init_step(m, event, next, action),
    ensures
        event matches StartEvent::Failed(error) ==> action == StartAction::Finish(Err(error))
            && next.phase is Ended,
        event matches StartEvent::MeshReady(mesh) ==> next.mesh == mesh && action is NewClusterKey,
        m.phase is MakingKey && event is Done ==> action is SaveIdentity,
        m.phase is SavingIdentity && event is Done ==> {
            &&& action is OpenRaft
            &&& action->OpenRaft_raft_id == m.identity.raft_id
            &&& action->OpenRaft_peers@.len() == 0
        },
        m.phase is OpeningRaft && event is Done ==> action is InitializeRaft,
        m.phase is InitializingRaft && event is Done ==> action is StartSubsystems,
        m.phase is StartingSubsystems && event is Done ==> (action is AskCloud
            <==> m.identity.provider is Some && m.identity.provider->0@ == "digitalocean"@),
        m.phase is SavingRegion && event is Done ==> action is Propose,
        m.phase is Registering && event is Done ==> {
            &&& action is StartSecondary
            &&& action->StartSecondary_0.expected_allocs@.len() == 0
            &&& action->StartSecondary_0.node_id@ == m.identity.node_id@
            &&& action->StartSecondary_0.mesh_ip == Some(m.mesh.tunnel_ip)
        },
        m.phase is StartingSecondary && event is Done ==> {
            &&& action is StartPrimary
            &&& action->StartPrimary_0.local_node_id is Some
            &&& action->StartPrimary_0.local_node_id->0@ == m.identity.node_id@
            &&& action->StartPrimary_0.auth_token == m.identity.cluster_token
        },
        m.phase is StartingPrimary && event is Done ==> {
            &&& action is StartRaftListener
            &&& action->StartRaftListener_address.ip == m.mesh.tunnel_ip
        },
        m.phase is StartingListener && event is Done ==> action is WritePid,
        m.phase is WritingPid && event is Done ==> action is Run,
        m.phase is Running && event is Done ==> action is ShutDown,
        m.phase is ShuttingDown && event is Done ==> action is RemovePid,
        m.phase is RemovingPid && event is Done ==> action is Finish && action->Finish_0 is Ok,
        action matches StartAction::Propose(command) ==> {
            &&& command is NodeRegister
            &&& command->NodeRegister_id == m.identity.raft_id
            &&& command->NodeRegister_mill_id@ == m.identity.node_id@
            &&& command->NodeRegister_address.ip == m.mesh.tunnel_ip
        },
        next.identity.node_id == m.identity.node_id,
        next.identity.cluster_token == m.identity.cluster_token,
{
}

/// What the cloud tells is kept: where the machine is goes into the identity, which is
/// then saved, and who it is goes into its entry.
pub proof fn what_the_cloud_tells_is_kept(
    m: Init,
    id: Option<Answer>,
    region: Option<Answer>,
    next: Init,
    action: StartAction,
)
    requires
        m.phase is AskingCloud,
        init_step(m, StartEvent::CloudAnswered { id, region }, next, action),
    ensures
        told(region) is Some ==> action is SaveIdentity && next.identity.region is Some
            && next.identity.region->0@ == told(region)->0,
        told(region) is None ==> action is Propose && next.identity == m.identity,
        told(id) is Some ==> next.instance_id is Some && next.instance_id->0@ == told(id)->0,
        told(id) is None ==> next.instance_id is None,
        action matches StartAction::Propose(command) ==> command->NodeRegister_instance_id
            == next.instance_id,
{
}

} // verus!
