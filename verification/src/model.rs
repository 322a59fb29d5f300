//! The resources that the control plane keeps, as plain values.
//!
//! Every resource has a mathematical counterpart (its name with a `V` behind
//! it) that holds texts as character sequences and labels as maps. Points in
//! time are nanoseconds since the Unix epoch.
use vstd::prelude::*;
use crate::collections::{clone_labels, Labels};
use crate::text::{clone_opt, opt_is};

verus! {

/// A copy of a list of strings.
pub fn clone_strings(v: &Vec<String>) -> (r: Vec<String>)
    ensures
        r.deep_view() == v.deep_view(),
{
    let r: Vec<String> = v.clone();
    assert(r.deep_view() =~= v.deep_view());
    r
}

/// A type whose copies have the contents of the original.
pub trait Duplicate: DeepView + Sized {
    /// A copy with the same contents.
    fn duplicate(&self) -> (r: Self)
        ensures
            r.deep_view() == self.deep_view(),
    ;
}

/// A copy of a list.
pub fn clone_all<T: Duplicate>(v: &Vec<T>) -> (r: Vec<T>)
    ensures
        r.deep_view() == v.deep_view(),
{
    let mut out: Vec<T> = Vec::new();
    let mut i: usize = 0;
    assert(v.deep_view().take(0) =~= Seq::<T::V>::empty());
    assert(out.deep_view() =~= Seq::<T::V>::empty());
    while i < v.len()
        invariant
            i <= v@.len(),
            out.deep_view() == v.deep_view().take(i as int),
        decreases v@.len() - i,
    {
        let ghost before = out.deep_view();
        let x: T = v[i].duplicate();
        let ghost e = x.deep_view();
        out.push(x);
        assert(out.deep_view() =~= before.push(e));
        assert(v.deep_view().take(i + 1) =~= before.push(e));
        i = i + 1;
    }
    assert(v.deep_view().take(i as int) =~= v.deep_view());
    out
}

/// The lifecycle of a pod.
#[derive(Debug, Clone, Copy, PartialEq, Eq, Structural)]
pub enum PodStatus {
    /// Waiting for a node.
    Pending,
    /// Bound to a node.
    Scheduled,
    /// Its container is being created.
    ContainerCreating,
    /// Its container runs.
    Running,
    /// It ended normally.
    Succeeded,
    /// It could not be started or ended with an error.
    Failed,
}

impl DeepView for PodStatus {
    type V = PodStatus;

    open spec fn deep_view(&self) -> PodStatus {
        *self
    }
}

/// The health of a node.
#[derive(Debug, Clone, Copy, PartialEq, Eq, Structural)]
pub enum NodeStatus {
    /// Heartbeats arrive in time.
    Ready,
    /// Heartbeats are overdue.
    NotReady,
    /// Heartbeats have stopped.
    Unknown,
}

impl DeepView for NodeStatus {
    type V = NodeStatus;

    open spec fn deep_view(&self) -> NodeStatus {
        *self
    }
}

/// What a taint does to pods that do not tolerate it.
#[derive(Debug, Clone, Copy, PartialEq, Eq, Structural)]
pub enum TaintEffect {
    /// They are not scheduled.
    NoSchedule,
    /// They are scheduled elsewhere if possible.
    PreferNoSchedule,
    /// They are evicted.
    NoExecute,
}

impl DeepView for TaintEffect {
    type V = TaintEffect;

    open spec fn deep_view(&self) -> TaintEffect {
        *self
    }
}

/// Where a job stands.
#[derive(Debug, Clone, Copy, PartialEq, Eq, Structural)]
pub enum JobCondition {
    /// It still runs.
    Running,
    /// Enough pods succeeded.
    Complete,
    /// Too many pods failed.
    Failed,
}

impl DeepView for JobCondition {
    type V = JobCondition;

    open spec fn deep_view(&self) -> JobCondition {
        *self
    }
}

/// The lifecycle of a VPC.
#[derive(Debug, Clone, Copy, PartialEq, Eq, Structural)]
pub enum VpcStatus {
    /// Accepts pods.
    Active,
    /// Drains.
    Terminating,
    /// Gone; its id cools down.
    Deleted,
}

impl DeepView for VpcStatus {
    type V = VpcStatus;

    open spec fn deep_view(&self) -> VpcStatus {
        *self
    }
}

/// The lifecycle of a VPC peering.
#[derive(Debug, Clone, Copy, PartialEq, Eq, Structural)]
pub enum PeeringStatus {
    /// Not yet set up.
    Pending,
    /// In effect.
    Active,
}

impl DeepView for PeeringStatus {
    type V = PeeringStatus;

    open spec fn deep_view(&self) -> PeeringStatus {
        *self
    }
}

/// Requested or available resources.
#[derive(Debug)]
pub struct ResourceRequirements {
    /// Thousandths of a CPU.
    pub cpu_millis: u64,
    /// Bytes of memory.
    pub memory_bytes: u64,
}

/// The contents of a [`ResourceRequirements`].
#[verifier::ext_equal]
pub struct ResourceRequirementsV {
    pub cpu_millis: u64,
    pub memory_bytes: u64,
}

impl DeepView for ResourceRequirements {
    type V = ResourceRequirementsV;

    open spec fn deep_view(&self) -> ResourceRequirementsV {
        ResourceRequirementsV {
            cpu_millis: self.cpu_millis,
            memory_bytes: self.memory_bytes,
        }
    }
}

impl Clone for ResourceRequirements {
    fn clone(&self) -> (r: Self)
        ensures
            r.deep_view() == self.deep_view(),
    {
        ResourceRequirements {
            cpu_millis: self.cpu_millis,
            memory_bytes: self.memory_bytes,
        }
    }
}

/// One container of a pod.
#[derive(Debug)]
pub struct ContainerSpec {
    /// Its name.
    pub name: String,
    /// The image reference.
    pub image: String,
    /// The command line; empty for that of the image.
    pub command: Vec<String>,
    /// Environment variables.
    pub env: Labels,
    /// What it asks for.
    pub resources: ResourceRequirements,
}

/// The contents of a [`ContainerSpec`].
#[verifier::ext_equal]
pub struct ContainerSpecV {
    pub name: Seq<char>,
    pub image: Seq<char>,
    pub command: Seq<Seq<char>>,
    pub env: Map<Seq<char>, Seq<char>>,
    pub resources: ResourceRequirementsV,
}

impl DeepView for ContainerSpec {
    type V = ContainerSpecV;

    open spec fn deep_view(&self) -> ContainerSpecV {
        ContainerSpecV {
            name: self.name.deep_view(),
            image: self.image.deep_view(),
            command: self.command.deep_view(),
            env: self.env.deep_view(),
            resources: self.resources.deep_view(),
        }
    }
}

impl Clone for ContainerSpec {
    fn clone(&self) -> (r: Self)
        ensures
            r.deep_view() == self.deep_view(),
    {
        ContainerSpec {
            name: self.name.clone(),
            image: self.image.clone(),
            command: clone_strings(&self.command),
            env: clone_labels(&self.env),
            resources: self.resources.clone(),
        }
    }
}

impl Duplicate for ContainerSpec {
    fn duplicate(&self) -> (r: Self) {
        self.clone()
    }
}

/// What a pod runs.
#[derive(Debug)]
pub struct PodSpec {
    /// Its containers.
    pub containers: Vec<ContainerSpec>,
    /// The VPC it asks for.
    pub vpc: Option<String>,
}

/// The contents of a [`PodSpec`].
#[verifier::ext_equal]
pub struct PodSpecV {
    pub containers: Seq<ContainerSpecV>,
    pub vpc: Option<Seq<char>>,
}

impl DeepView for PodSpec {
    type V = PodSpecV;

    open spec fn deep_view(&self) -> PodSpecV {
        PodSpecV {
            containers: self.containers.deep_view(),
            vpc: self.vpc.deep_view(),
        }
    }
}

impl Clone for PodSpec {
    fn clone(&self) -> (r: Self)
        ensures
            r.deep_view() == self.deep_view(),
    {
        PodSpec {
            containers: clone_all(&self.containers),
            vpc: clone_opt(&self.vpc),
        }
    }
}

/// The runtime that a pod was started with.
#[derive(Debug)]
pub struct PodRuntimeInfo {
    /// Name of the backend.
    pub backend: String,
    /// Its version.
    pub version: String,
}

/// The contents of a [`PodRuntimeInfo`].
#[verifier::ext_equal]
pub struct PodRuntimeInfoV {
    pub backend: Seq<char>,
    pub version: Seq<char>,
}

impl DeepView for PodRuntimeInfo {
    type V = PodRuntimeInfoV;

    open spec fn deep_view(&self) -> PodRuntimeInfoV {
        PodRuntimeInfoV {
            backend: self.backend.deep_view(),
            version: self.version.deep_view(),
        }
    }
}

impl Clone for PodRuntimeInfo {
    fn clone(&self) -> (r: Self)
        ensures
            r.deep_view() == self.deep_view(),
    {
        PodRuntimeInfo {
            backend: self.backend.clone(),
            version: self.version.clone(),
        }
    }
}

/// A pod.
#[derive(Debug)]
pub struct Pod {
    /// Unique id.
    pub id: String,
    /// Name.
    pub name: String,
    /// Namespace.
    pub namespace: String,
    /// What it runs.
    pub spec: PodSpec,
    /// Where it stands.
    pub status: PodStatus,
    /// The node it is bound to.
    pub node_name: Option<String>,
    /// Labels.
    pub labels: Labels,
    /// Id of the resource that owns it.
    pub owner_ref: Option<String>,
    /// How often it was restarted.
    pub restart_count: u32,
    /// The runtime it was started with.
    pub runtime_info: Option<PodRuntimeInfo>,
    /// Its address in the mesh.
    pub ghost_ipv6: Option<String>,
    /// The VPC it was placed in.
    pub vpc_name: Option<String>,
    /// When it was created.
    pub created_at: i128,
}

/// The contents of a [`Pod`].
#[verifier::ext_equal]
pub struct PodV {
    pub id: Seq<char>,
    pub name: Seq<char>,
    pub namespace: Seq<char>,
    pub spec: PodSpecV,
    pub status: PodStatus,
    pub node_name: Option<Seq<char>>,
    pub labels: Map<Seq<char>, Seq<char>>,
    pub owner_ref: Option<Seq<char>>,
    pub restart_count: u32,
    pub runtime_info: Option<PodRuntimeInfoV>,
    pub ghost_ipv6: Option<Seq<char>>,
    pub vpc_name: Option<Seq<char>>,
    pub created_at: i128,
}

impl DeepView for Pod {
    type V = PodV;

    open spec fn deep_view(&self) -> PodV {
        PodV {
            id: self.id.deep_view(),
            name: self.name.deep_view(),
            namespace: self.namespace.deep_view(),
            spec: self.spec.deep_view(),
            status: self.status,
            node_name: self.node_name.deep_view(),
            labels: self.labels.deep_view(),
            owner_ref: self.owner_ref.deep_view(),
            restart_count: self.restart_count,
            runtime_info: self.runtime_info.deep_view(),
            ghost_ipv6: self.ghost_ipv6.deep_view(),
            vpc_name: self.vpc_name.deep_view(),
            created_at: self.created_at,
        }
    }
}

impl Clone for Pod {
    fn clone(&self) -> (r: Self)
        ensures
            r.deep_view() == self.deep_view(),
    {
        Pod {
            id: self.id.clone(),
            name: self.name.clone(),
            namespace: self.namespace.clone(),
            spec: self.spec.clone(),
            status: self.status,
            node_name: clone_opt(&self.node_name),
            labels: clone_labels(&self.labels),
            owner_ref: clone_opt(&self.owner_ref),
            restart_count: self.restart_count,
            runtime_info: match &self.runtime_info {
                Some(x) => Some(x.clone()),
                None => None,
            },
            ghost_ipv6: clone_opt(&self.ghost_ipv6),
            vpc_name: clone_opt(&self.vpc_name),
            created_at: self.created_at,
        }
    }
}

/// A taint on a node.
#[derive(Debug)]
pub struct Taint {
    /// Key.
    pub key: String,
    /// Value.
    pub value: String,
    /// Effect.
    pub effect: TaintEffect,
}

/// The contents of a [`Taint`].
#[verifier::ext_equal]
pub struct TaintV {
    pub key: Seq<char>,
    pub value: Seq<char>,
    pub effect: TaintEffect,
}

impl DeepView for Taint {
    type V = TaintV;

    open spec fn deep_view(&self) -> TaintV {
        TaintV {
            key: self.key.deep_view(),
            value: self.value.deep_view(),
            effect: self.effect,
        }
    }
}

impl Clone for Taint {
    fn clone(&self) -> (r: Self)
        ensures
            r.deep_view() == self.deep_view(),
    {
        Taint {
            key: self.key.clone(),
            value: self.value.clone(),
            effect: self.effect,
        }
    }
}

impl Duplicate for Taint {
    fn duplicate(&self) -> (r: Self) {
        self.clone()
    }
}

/// A node of the cluster.
#[derive(Debug)]
pub struct Node {
    /// Unique id.
    pub id: String,
    /// Name.
    pub name: String,
    /// Health.
    pub status: NodeStatus,
    /// When it registered.
    pub registered_at: i128,
    /// When it was last heard of.
    pub last_heartbeat: i128,
    /// Labels.
    pub labels: Labels,
    /// Taints.
    pub taints: Vec<Taint>,
    /// What it has.
    pub capacity: ResourceRequirements,
    /// What is taken.
    pub allocated: ResourceRequirements,
    /// Whether it is cordoned.
    pub unschedulable: bool,
    /// Where its agent listens.
    pub address: String,
    /// The port of its agent.
    pub agent_api_port: u16,
}

/// The contents of a [`Node`].
#[verifier::ext_equal]
pub struct NodeV {
    pub id: Seq<char>,
    pub name: Seq<char>,
    pub status: NodeStatus,
    pub registered_at: i128,
    pub last_heartbeat: i128,
    pub labels: Map<Seq<char>, Seq<char>>,
    pub taints: Seq<TaintV>,
    pub capacity: ResourceRequirementsV,
    pub allocated: ResourceRequirementsV,
    pub unschedulable: bool,
    pub address: Seq<char>,
    pub agent_api_port: u16,
}

impl DeepView for Node {
    type V = NodeV;

    open spec fn deep_view(&self) -> NodeV {
        NodeV {
            id: self.id.deep_view(),
            name: self.name.deep_view(),
            status: self.status,
            registered_at: self.registered_at,
            last_heartbeat: self.last_heartbeat,
            labels: self.labels.deep_view(),
            taints: self.taints.deep_view(),
            capacity: self.capacity.deep_view(),
            allocated: self.allocated.deep_view(),
            unschedulable: self.unschedulable,
            address: self.address.deep_view(),
            agent_api_port: self.agent_api_port,
        }
    }
}

impl Clone for Node {
    fn clone(&self) -> (r: Self)
        ensures
            r.deep_view() == self.deep_view(),
    {
        Node {
            id: self.id.clone(),
            name: self.name.clone(),
            status: self.status,
            registered_at: self.registered_at,
            last_heartbeat: self.last_heartbeat,
            labels: clone_labels(&self.labels),
            taints: clone_all(&self.taints),
            capacity: self.capacity.clone(),
            allocated: self.allocated.clone(),
            unschedulable: self.unschedulable,
            address: self.address.clone(),
            agent_api_port: self.agent_api_port,
        }
    }
}

/// What a replica set asks for.
#[derive(Debug)]
pub struct ReplicaSetSpec {
    /// Number of pods.
    pub replicas: u32,
    /// Labels of the pods.
    pub selector: Labels,
    /// What each pod runs.
    pub template: PodSpec,
}

/// The contents of a [`ReplicaSetSpec`].
#[verifier::ext_equal]
pub struct ReplicaSetSpecV {
    pub replicas: u32,
    pub selector: Map<Seq<char>, Seq<char>>,
    pub template: PodSpecV,
}

impl DeepView for ReplicaSetSpec {
    type V = ReplicaSetSpecV;

    open spec fn deep_view(&self) -> ReplicaSetSpecV {
        ReplicaSetSpecV {
            replicas: self.replicas,
            selector: self.selector.deep_view(),
            template: self.template.deep_view(),
        }
    }
}

impl Clone for ReplicaSetSpec {
    fn clone(&self) -> (r: Self)
        ensures
            r.deep_view() == self.deep_view(),
    {
        ReplicaSetSpec {
            replicas: self.replicas,
            selector: clone_labels(&self.selector),
            template: self.template.clone(),
        }
    }
}

/// What a replica set has.
#[derive(Debug)]
pub struct ReplicaSetStatus {
    /// Pods.
    pub replicas: u32,
    /// Pods that are scheduled or run.
    pub ready_replicas: u32,
    /// Pods that run.
    pub available_replicas: u32,
}

/// The contents of a [`ReplicaSetStatus`].
#[verifier::ext_equal]
pub struct ReplicaSetStatusV {
    pub replicas: u32,
    pub ready_replicas: u32,
    pub available_replicas: u32,
}

impl DeepView for ReplicaSetStatus {
    type V = ReplicaSetStatusV;

    open spec fn deep_view(&self) -> ReplicaSetStatusV {
        ReplicaSetStatusV {
            replicas: self.replicas,
            ready_replicas: self.ready_replicas,
            available_replicas: self.available_replicas,
        }
    }
}

impl Clone for ReplicaSetStatus {
    fn clone(&self) -> (r: Self)
        ensures
            r.deep_view() == self.deep_view(),
    {
        ReplicaSetStatus {
            replicas: self.replicas,
            ready_replicas: self.ready_replicas,
            available_replicas: self.available_replicas,
        }
    }
}

/// A replica set.
#[derive(Debug)]
pub struct ReplicaSet {
    /// Unique id.
    pub id: String,
    /// Name.
    pub name: String,
    /// Namespace.
    pub namespace: String,
    /// What it asks for.
    pub spec: ReplicaSetSpec,
    /// What it has.
    pub status: ReplicaSetStatus,
    /// Id of the deployment that owns it.
    pub owner_ref: Option<String>,
    /// Hash of the template that it was made from.
    pub template_hash: String,
    /// When it was created.
    pub created_at: i128,
}

/// The contents of a [`ReplicaSet`].
#[verifier::ext_equal]
pub struct ReplicaSetV {
    pub id: Seq<char>,
    pub name: Seq<char>,
    pub namespace: Seq<char>,
    pub spec: ReplicaSetSpecV,
    pub status: ReplicaSetStatusV,
    pub owner_ref: Option<Seq<char>>,
    pub template_hash: Seq<char>,
    pub created_at: i128,
}

impl DeepView for ReplicaSet {
    type V = ReplicaSetV;

    open spec fn deep_view(&self) -> ReplicaSetV {
        ReplicaSetV {
            id: self.id.deep_view(),
            name: self.name.deep_view(),
            namespace: self.namespace.deep_view(),
            spec: self.spec.deep_view(),
            status: self.status.deep_view(),
            owner_ref: self.owner_ref.deep_view(),
            template_hash: self.template_hash.deep_view(),
            created_at: self.created_at,
        }
    }
}

impl Clone for ReplicaSet {
    fn clone(&self) -> (r: Self)
        ensures
            r.deep_view() == self.deep_view(),
    {
        ReplicaSet {
            id: self.id.clone(),
            name: self.name.clone(),
            namespace: self.namespace.clone(),
            spec: self.spec.clone(),
            status: self.status.clone(),
            owner_ref: clone_opt(&self.owner_ref),
            template_hash: self.template_hash.clone(),
            created_at: self.created_at,
        }
    }
}

/// How a deployment replaces its pods.
#[derive(Debug, Clone, Copy, PartialEq, Eq, Structural)]
pub enum DeploymentStrategy {
    /// Step by step.
    RollingUpdate {
        /// How many pods may exist beyond the wanted number.
        max_surge: u32,
        /// How many pods may be missing.
        max_unavailable: u32,
    },
    /// All at once.
    Recreate,
}

impl DeepView for DeploymentStrategy {
    type V = DeploymentStrategy;

    open spec fn deep_view(&self) -> DeploymentStrategy {
        *self
    }
}

/// What a deployment asks for.
#[derive(Debug)]
pub struct DeploymentSpec {
    /// Number of pods.
    pub replicas: u32,
    /// Labels of the pods.
    pub selector: Labels,
    /// What each pod runs.
    pub template: PodSpec,
    /// How pods are replaced.
    pub strategy: DeploymentStrategy,
}

/// The contents of a [`DeploymentSpec`].
#[verifier::ext_equal]
pub struct DeploymentSpecV {
    pub replicas: u32,
    pub selector: Map<Seq<char>, Seq<char>>,
    pub template: PodSpecV,
    pub strategy: DeploymentStrategy,
}

impl DeepView for DeploymentSpec {
    type V = DeploymentSpecV;

    open spec fn deep_view(&self) -> DeploymentSpecV {
        DeploymentSpecV {
            replicas: self.replicas,
            selector: self.selector.deep_view(),
            template: self.template.deep_view(),
            strategy: self.strategy,
        }
    }
}

impl Clone for DeploymentSpec {
    fn clone(&self) -> (r: Self)
        ensures
            r.deep_view() == self.deep_view(),
    {
        DeploymentSpec {
            replicas: self.replicas,
            selector: clone_labels(&self.selector),
            template: self.template.clone(),
            strategy: self.strategy,
        }
    }
}

/// What a deployment has.
#[derive(Debug)]
pub struct DeploymentStatus {
    /// Pods that are scheduled or run.
    pub ready_replicas: u32,
    /// Pods that run.
    pub available_replicas: u32,
    /// Pods of the current template.
    pub updated_replicas: u32,
}

/// The contents of a [`DeploymentStatus`].
#[verifier::ext_equal]
pub struct DeploymentStatusV {
    pub ready_replicas: u32,
    pub available_replicas: u32,
    pub updated_replicas: u32,
}

impl DeepView for DeploymentStatus {
    type V = DeploymentStatusV;

    open spec fn deep_view(&self) -> DeploymentStatusV {
        DeploymentStatusV {
            ready_replicas: self.ready_replicas,
            available_replicas: self.available_replicas,
            updated_replicas: self.updated_replicas,
        }
    }
}

impl Clone for DeploymentStatus {
    fn clone(&self) -> (r: Self)
        ensures
            r.deep_view() == self.deep_view(),
    {
        DeploymentStatus {
            ready_replicas: self.ready_replicas,
            available_replicas: self.available_replicas,
            updated_replicas: self.updated_replicas,
        }
    }
}

/// A deployment.
#[derive(Debug)]
pub struct Deployment {
    /// Unique id.
    pub id: String,
    /// Name.
    pub name: String,
    /// Namespace.
    pub namespace: String,
    /// What it asks for.
    pub spec: DeploymentSpec,
    /// What it has.
    pub status: DeploymentStatus,
    /// Version of the wanted state.
    pub generation: u64,
    /// Version that was last acted on.
    pub observed_generation: u64,
    /// When it was created.
    pub created_at: i128,
}

/// The contents of a [`Deployment`].
#[verifier::ext_equal]
pub struct DeploymentV {
    pub id: Seq<char>,
    pub name: Seq<char>,
    pub namespace: Seq<char>,
    pub spec: DeploymentSpecV,
    pub status: DeploymentStatusV,
    pub generation: u64,
    pub observed_generation: u64,
    pub created_at: i128,
}

impl DeepView for Deployment {
    type V = DeploymentV;

    open spec fn deep_view(&self) -> DeploymentV {
        DeploymentV {
            id: self.id.deep_view(),
            name: self.name.deep_view(),
            namespace: self.namespace.deep_view(),
            spec: self.spec.deep_view(),
            status: self.status.deep_view(),
            generation: self.generation,
            observed_generation: self.observed_generation,
            created_at: self.created_at,
        }
    }
}

impl Clone for Deployment {
    fn clone(&self) -> (r: Self)
        ensures
            r.deep_view() == self.deep_view(),
    {
        Deployment {
            id: self.id.clone(),
            name: self.name.clone(),
            namespace: self.namespace.clone(),
            spec: self.spec.clone(),
            status: self.status.clone(),
            generation: self.generation,
            observed_generation: self.observed_generation,
            created_at: self.created_at,
        }
    }
}

/// Utilization targets in percent.
#[derive(Debug)]
pub struct HpaMetrics {
    /// For the CPU.
    pub cpu_utilization_percent: Option<u32>,
    /// For the memory.
    pub memory_utilization_percent: Option<u32>,
}

/// The contents of a [`HpaMetrics`].
#[verifier::ext_equal]
pub struct HpaMetricsV {
    pub cpu_utilization_percent: Option<u32>,
    pub memory_utilization_percent: Option<u32>,
}

impl DeepView for HpaMetrics {
    type V = HpaMetricsV;

    open spec fn deep_view(&self) -> HpaMetricsV {
        HpaMetricsV {
            cpu_utilization_percent: self.cpu_utilization_percent,
            memory_utilization_percent: self.memory_utilization_percent,
        }
    }
}

impl Clone for HpaMetrics {
    fn clone(&self) -> (r: Self)
        ensures
            r.deep_view() == self.deep_view(),
    {
        HpaMetrics {
            cpu_utilization_percent: self.cpu_utilization_percent,
            memory_utilization_percent: self.memory_utilization_percent,
        }
    }
}

/// What an autoscaler does.
#[derive(Debug)]
pub struct HpaSpec {
    /// The deployment that it scales.
    pub target_deployment: String,
    /// Lower bound.
    pub min_replicas: u32,
    /// Upper bound.
    pub max_replicas: u32,
    /// Targets.
    pub metrics: HpaMetrics,
}

/// The contents of a [`HpaSpec`].
#[verifier::ext_equal]
pub struct HpaSpecV {
    pub target_deployment: Seq<char>,
    pub min_replicas: u32,
    pub max_replicas: u32,
    pub metrics: HpaMetricsV,
}

impl DeepView for HpaSpec {
    type V = HpaSpecV;

    open spec fn deep_view(&self) -> HpaSpecV {
        HpaSpecV {
            target_deployment: self.target_deployment.deep_view(),
            min_replicas: self.min_replicas,
            max_replicas: self.max_replicas,
            metrics: self.metrics.deep_view(),
        }
    }
}

impl Clone for HpaSpec {
    fn clone(&self) -> (r: Self)
        ensures
            r.deep_view() == self.deep_view(),
    {
        HpaSpec {
            target_deployment: self.target_deployment.clone(),
            min_replicas: self.min_replicas,
            max_replicas: self.max_replicas,
            metrics: self.metrics.clone(),
        }
    }
}

/// What an autoscaler last saw.
#[derive(Debug)]
pub struct HpaStatus {
    /// Replicas that it found.
    pub current_replicas: u32,
    /// Replicas that it wanted.
    pub desired_replicas: u32,
    /// CPU utilization.
    pub current_cpu_utilization_percent: Option<u32>,
    /// Memory utilization.
    pub current_memory_utilization_percent: Option<u32>,
    /// When it last scaled.
    pub last_scale_time: Option<i128>,
}

/// The contents of a [`HpaStatus`].
#[verifier::ext_equal]
pub struct HpaStatusV {
    pub current_replicas: u32,
    pub desired_replicas: u32,
    pub current_cpu_utilization_percent: Option<u32>,
    pub current_memory_utilization_percent: Option<u32>,
    pub last_scale_time: Option<i128>,
}

impl DeepView for HpaStatus {
    type V = HpaStatusV;

    open spec fn deep_view(&self) -> HpaStatusV {
        HpaStatusV {
            current_replicas: self.current_replicas,
            desired_replicas: self.desired_replicas,
            current_cpu_utilization_percent: self.current_cpu_utilization_percent,
            current_memory_utilization_percent: self.current_memory_utilization_percent,
            last_scale_time: self.last_scale_time,
        }
    }
}

impl Clone for HpaStatus {
    fn clone(&self) -> (r: Self)
        ensures
            r.deep_view() == self.deep_view(),
    {
        HpaStatus {
            current_replicas: self.current_replicas,
            desired_replicas: self.desired_replicas,
            current_cpu_utilization_percent: self.current_cpu_utilization_percent,
            current_memory_utilization_percent: self.current_memory_utilization_percent,
            last_scale_time: self.last_scale_time,
        }
    }
}

/// An autoscaler.
#[derive(Debug)]
pub struct HorizontalPodAutoscaler {
    /// Unique id.
    pub id: String,
    /// Name.
    pub name: String,
    /// Namespace.
    pub namespace: String,
    /// What it does.
    pub spec: HpaSpec,
    /// What it last saw.
    pub status: HpaStatus,
    /// When it was created.
    pub created_at: i128,
}

/// The contents of a [`HorizontalPodAutoscaler`].
#[verifier::ext_equal]
pub struct HorizontalPodAutoscalerV {
    pub id: Seq<char>,
    pub name: Seq<char>,
    pub namespace: Seq<char>,
    pub spec: HpaSpecV,
    pub status: HpaStatusV,
    pub created_at: i128,
}

impl DeepView for HorizontalPodAutoscaler {
    type V = HorizontalPodAutoscalerV;

    open spec fn deep_view(&self) -> HorizontalPodAutoscalerV {
        HorizontalPodAutoscalerV {
            id: self.id.deep_view(),
            name: self.name.deep_view(),
            namespace: self.namespace.deep_view(),
            spec: self.spec.deep_view(),
            status: self.status.deep_view(),
            created_at: self.created_at,
        }
    }
}

impl Clone for HorizontalPodAutoscaler {
    fn clone(&self) -> (r: Self)
        ensures
            r.deep_view() == self.deep_view(),
    {
        HorizontalPodAutoscaler {
            id: self.id.clone(),
            name: self.name.clone(),
            namespace: self.namespace.clone(),
            spec: self.spec.clone(),
            status: self.status.clone(),
            created_at: self.created_at,
        }
    }
}

/// What a daemon set asks for.
#[derive(Debug)]
pub struct DaemonSetSpec {
    /// Labels of the nodes.
    pub node_selector: Labels,
    /// What each pod runs.
    pub template: PodSpec,
}

/// The contents of a [`DaemonSetSpec`].
#[verifier::ext_equal]
pub struct DaemonSetSpecV {
    pub node_selector: Map<Seq<char>, Seq<char>>,
    pub template: PodSpecV,
}

impl DeepView for DaemonSetSpec {
    type V = DaemonSetSpecV;

    open spec fn deep_view(&self) -> DaemonSetSpecV {
        DaemonSetSpecV {
            node_selector: self.node_selector.deep_view(),
            template: self.template.deep_view(),
        }
    }
}

impl Clone for DaemonSetSpec {
    fn clone(&self) -> (r: Self)
        ensures
            r.deep_view() == self.deep_view(),
    {
        DaemonSetSpec {
            node_selector: clone_labels(&self.node_selector),
            template: self.template.clone(),
        }
    }
}

/// What a daemon set has.
#[derive(Debug)]
pub struct DaemonSetStatus {
    /// Nodes that should run a pod.
    pub desired_number_scheduled: u32,
    /// Nodes that run a pod.
    pub current_number_scheduled: u32,
    /// Pods that are ready.
    pub number_ready: u32,
}

/// The contents of a [`DaemonSetStatus`].
#[verifier::ext_equal]
pub struct DaemonSetStatusV {
    pub desired_number_scheduled: u32,
    pub current_number_scheduled: u32,
    pub number_ready: u32,
}

impl DeepView for DaemonSetStatus {
    type V = DaemonSetStatusV;

    open spec fn deep_view(&self) -> DaemonSetStatusV {
        DaemonSetStatusV {
            desired_number_scheduled: self.desired_number_scheduled,
            current_number_scheduled: self.current_number_scheduled,
            number_ready: self.number_ready,
        }
    }
}

impl Clone for DaemonSetStatus {
    fn clone(&self) -> (r: Self)
        ensures
            r.deep_view() == self.deep_view(),
    {
        DaemonSetStatus {
            desired_number_scheduled: self.desired_number_scheduled,
            current_number_scheduled: self.current_number_scheduled,
            number_ready: self.number_ready,
        }
    }
}

/// A daemon set.
#[derive(Debug)]
pub struct DaemonSet {
    /// Unique id.
    pub id: String,
    /// Name.
    pub name: String,
    /// Namespace.
    pub namespace: String,
    /// What it asks for.
    pub spec: DaemonSetSpec,
    /// What it has.
    pub status: DaemonSetStatus,
    /// When it was created.
    pub created_at: i128,
}

/// The contents of a [`DaemonSet`].
#[verifier::ext_equal]
pub struct DaemonSetV {
    pub id: Seq<char>,
    pub name: Seq<char>,
    pub namespace: Seq<char>,
    pub spec: DaemonSetSpecV,
    pub status: DaemonSetStatusV,
    pub created_at: i128,
}

impl DeepView for DaemonSet {
    type V = DaemonSetV;

    open spec fn deep_view(&self) -> DaemonSetV {
        DaemonSetV {
            id: self.id.deep_view(),
            name: self.name.deep_view(),
            namespace: self.namespace.deep_view(),
            spec: self.spec.deep_view(),
            status: self.status.deep_view(),
            created_at: self.created_at,
        }
    }
}

impl Clone for DaemonSet {
    fn clone(&self) -> (r: Self)
        ensures
            r.deep_view() == self.deep_view(),
    {
        DaemonSet {
            id: self.id.clone(),
            name: self.name.clone(),
            namespace: self.namespace.clone(),
            spec: self.spec.clone(),
            status: self.status.clone(),
            created_at: self.created_at,
        }
    }
}

/// What a job does.
#[derive(Debug)]
pub struct JobSpec {
    /// What each pod runs.
    pub template: PodSpec,
    /// Successes that it needs.
    pub completions: u32,
    /// Pods at a time.
    pub parallelism: u32,
    /// Failures that end it.
    pub backoff_limit: u32,
}

/// The contents of a [`JobSpec`].
#[verifier::ext_equal]
pub struct JobSpecV {
    pub template: PodSpecV,
    pub completions: u32,
    pub parallelism: u32,
    pub backoff_limit: u32,
}

impl DeepView for JobSpec {
    type V = JobSpecV;

    open spec fn deep_view(&self) -> JobSpecV {
        JobSpecV {
            template: self.template.deep_view(),
            completions: self.completions,
            parallelism: self.parallelism,
            backoff_limit: self.backoff_limit,
        }
    }
}

impl Clone for JobSpec {
    fn clone(&self) -> (r: Self)
        ensures
            r.deep_view() == self.deep_view(),
    {
        JobSpec {
            template: self.template.clone(),
            completions: self.completions,
            parallelism: self.parallelism,
            backoff_limit: self.backoff_limit,
        }
    }
}

/// Where a job stands.
#[derive(Debug)]
pub struct JobStatus {
    /// Pods under way.
    pub active: u32,
    /// Pods that succeeded.
    pub succeeded: u32,
    /// Pods that failed.
    pub failed: u32,
    /// Condition.
    pub condition: JobCondition,
    /// When it started.
    pub start_time: Option<i128>,
    /// When it completed.
    pub completion_time: Option<i128>,
}

/// The contents of a [`JobStatus`].
#[verifier::ext_equal]
pub struct JobStatusV {
    pub active: u32,
    pub succeeded: u32,
    pub failed: u32,
    pub condition: JobCondition,
    pub start_time: Option<i128>,
    pub completion_time: Option<i128>,
}

impl DeepView for JobStatus {
    type V = JobStatusV;

    open spec fn deep_view(&self) -> JobStatusV {
        JobStatusV {
            active: self.active,
            succeeded: self.succeeded,
            failed: self.failed,
            condition: self.condition,
            start_time: self.start_time,
            completion_time: self.completion_time,
        }
    }
}

impl Clone for JobStatus {
    fn clone(&self) -> (r: Self)
        ensures
            r.deep_view() == self.deep_view(),
    {
        JobStatus {
            active: self.active,
            succeeded: self.succeeded,
            failed: self.failed,
            condition: self.condition,
            start_time: self.start_time,
            completion_time: self.completion_time,
        }
    }
}

/// A job.
#[derive(Debug)]
pub struct Job {
    /// Unique id.
    pub id: String,
    /// Name.
    pub name: String,
    /// Namespace.
    pub namespace: String,
    /// What it does.
    pub spec: JobSpec,
    /// Where it stands.
    pub status: JobStatus,
    /// Id of the cron job that owns it.
    pub owner_ref: Option<String>,
    /// When it was created.
    pub created_at: i128,
}

/// The contents of a [`Job`].
#[verifier::ext_equal]
pub struct JobV {
    pub id: Seq<char>,
    pub name: Seq<char>,
    pub namespace: Seq<char>,
    pub spec: JobSpecV,
    pub status: JobStatusV,
    pub owner_ref: Option<Seq<char>>,
    pub created_at: i128,
}

impl DeepView for Job {
    type V = JobV;

    open spec fn deep_view(&self) -> JobV {
        JobV {
            id: self.id.deep_view(),
            name: self.name.deep_view(),
            namespace: self.namespace.deep_view(),
            spec: self.spec.deep_view(),
            status: self.status.deep_view(),
            owner_ref: self.owner_ref.deep_view(),
            created_at: self.created_at,
        }
    }
}

impl Clone for Job {
    fn clone(&self) -> (r: Self)
        ensures
            r.deep_view() == self.deep_view(),
    {
        Job {
            id: self.id.clone(),
            name: self.name.clone(),
            namespace: self.namespace.clone(),
            spec: self.spec.clone(),
            status: self.status.clone(),
            owner_ref: clone_opt(&self.owner_ref),
            created_at: self.created_at,
        }
    }
}

/// What a cron job does.
#[derive(Debug)]
pub struct CronJobSpec {
    /// The schedule.
    pub schedule: String,
    /// What each job does.
    pub job_template: JobSpec,
    /// Whether it is suspended.
    pub suspend: bool,
}

/// The contents of a [`CronJobSpec`].
#[verifier::ext_equal]
pub struct CronJobSpecV {
    pub schedule: Seq<char>,
    pub job_template: JobSpecV,
    pub suspend: bool,
}

impl DeepView for CronJobSpec {
    type V = CronJobSpecV;

    open spec fn deep_view(&self) -> CronJobSpecV {
        CronJobSpecV {
            schedule: self.schedule.deep_view(),
            job_template: self.job_template.deep_view(),
            suspend: self.suspend,
        }
    }
}

impl Clone for CronJobSpec {
    fn clone(&self) -> (r: Self)
        ensures
            r.deep_view() == self.deep_view(),
    {
        CronJobSpec {
            schedule: self.schedule.clone(),
            job_template: self.job_template.clone(),
            suspend: self.suspend,
        }
    }
}

/// Where a cron job stands.
#[derive(Debug)]
pub struct CronJobStatus {
    /// When it last made a job.
    pub last_schedule_time: Option<i128>,
    /// Ids of the jobs under way.
    pub active_jobs: Vec<String>,
}

/// The contents of a [`CronJobStatus`].
#[verifier::ext_equal]
pub struct CronJobStatusV {
    pub last_schedule_time: Option<i128>,
    pub active_jobs: Seq<Seq<char>>,
}

impl DeepView for CronJobStatus {
    type V = CronJobStatusV;

    open spec fn deep_view(&self) -> CronJobStatusV {
        CronJobStatusV {
            last_schedule_time: self.last_schedule_time,
            active_jobs: self.active_jobs.deep_view(),
        }
    }
}

impl Clone for CronJobStatus {
    fn clone(&self) -> (r: Self)
        ensures
            r.deep_view() == self.deep_view(),
    {
        CronJobStatus {
            last_schedule_time: self.last_schedule_time,
            active_jobs: clone_strings(&self.active_jobs),
        }
    }
}

/// A cron job.
#[derive(Debug)]
pub struct CronJob {
    /// Unique id.
    pub id: String,
    /// Name.
    pub name: String,
    /// Namespace.
    pub namespace: String,
    /// What it does.
    pub spec: CronJobSpec,
    /// Where it stands.
    pub status: CronJobStatus,
    /// When it was created.
    pub created_at: i128,
}

/// The contents of a [`CronJob`].
#[verifier::ext_equal]
pub struct CronJobV {
    pub id: Seq<char>,
    pub name: Seq<char>,
    pub namespace: Seq<char>,
    pub spec: CronJobSpecV,
    pub status: CronJobStatusV,
    pub created_at: i128,
}

impl DeepView for CronJob {
    type V = CronJobV;

    open spec fn deep_view(&self) -> CronJobV {
        CronJobV {
            id: self.id.deep_view(),
            name: self.name.deep_view(),
            namespace: self.namespace.deep_view(),
            spec: self.spec.deep_view(),
            status: self.status.deep_view(),
            created_at: self.created_at,
        }
    }
}

impl Clone for CronJob {
    fn clone(&self) -> (r: Self)
        ensures
            r.deep_view() == self.deep_view(),
    {
        CronJob {
            id: self.id.clone(),
            name: self.name.clone(),
            namespace: self.namespace.clone(),
            spec: self.spec.clone(),
            status: self.status.clone(),
            created_at: self.created_at,
        }
    }
}

/// A port of a service.
#[derive(Debug)]
pub struct ServicePort {
    /// Name.
    pub name: String,
    /// Port of the service.
    pub port: u16,
    /// Port of the pods.
    pub target_port: u16,
}

/// The contents of a [`ServicePort`].
#[verifier::ext_equal]
pub struct ServicePortV {
    pub name: Seq<char>,
    pub port: u16,
    pub target_port: u16,
}

impl DeepView for ServicePort {
    type V = ServicePortV;

    open spec fn deep_view(&self) -> ServicePortV {
        ServicePortV {
            name: self.name.deep_view(),
            port: self.port,
            target_port: self.target_port,
        }
    }
}

impl Clone for ServicePort {
    fn clone(&self) -> (r: Self)
        ensures
            r.deep_view() == self.deep_view(),
    {
        ServicePort {
            name: self.name.clone(),
            port: self.port,
            target_port: self.target_port,
        }
    }
}

impl Duplicate for ServicePort {
    fn duplicate(&self) -> (r: Self) {
        self.clone()
    }
}

/// What a service selects.
#[derive(Debug)]
pub struct ServiceSpec {
    /// Labels of its pods.
    pub selector: Labels,
    /// Its ports.
    pub ports: Vec<ServicePort>,
}

/// The contents of a [`ServiceSpec`].
#[verifier::ext_equal]
pub struct ServiceSpecV {
    pub selector: Map<Seq<char>, Seq<char>>,
    pub ports: Seq<ServicePortV>,
}

impl DeepView for ServiceSpec {
    type V = ServiceSpecV;

    open spec fn deep_view(&self) -> ServiceSpecV {
        ServiceSpecV {
            selector: self.selector.deep_view(),
            ports: self.ports.deep_view(),
        }
    }
}

impl Clone for ServiceSpec {
    fn clone(&self) -> (r: Self)
        ensures
            r.deep_view() == self.deep_view(),
    {
        ServiceSpec {
            selector: clone_labels(&self.selector),
            ports: clone_all(&self.ports),
        }
    }
}

/// A service.
#[derive(Debug)]
pub struct Service {
    /// Unique id.
    pub id: String,
    /// Name.
    pub name: String,
    /// Namespace.
    pub namespace: String,
    /// What it selects.
    pub spec: ServiceSpec,
    /// Its VPC.
    pub vpc: Option<String>,
    /// Its address.
    pub cluster_ip: Option<String>,
    /// When it was created.
    pub created_at: i128,
}

/// The contents of a [`Service`].
#[verifier::ext_equal]
pub struct ServiceV {
    pub id: Seq<char>,
    pub name: Seq<char>,
    pub namespace: Seq<char>,
    pub spec: ServiceSpecV,
    pub vpc: Option<Seq<char>>,
    pub cluster_ip: Option<Seq<char>>,
    pub created_at: i128,
}

impl DeepView for Service {
    type V = ServiceV;

    open spec fn deep_view(&self) -> ServiceV {
        ServiceV {
            id: self.id.deep_view(),
            name: self.name.deep_view(),
            namespace: self.namespace.deep_view(),
            spec: self.spec.deep_view(),
            vpc: self.vpc.deep_view(),
            cluster_ip: self.cluster_ip.deep_view(),
            created_at: self.created_at,
        }
    }
}

impl Clone for Service {
    fn clone(&self) -> (r: Self)
        ensures
            r.deep_view() == self.deep_view(),
    {
        Service {
            id: self.id.clone(),
            name: self.name.clone(),
            namespace: self.namespace.clone(),
            spec: self.spec.clone(),
            vpc: clone_opt(&self.vpc),
            cluster_ip: clone_opt(&self.cluster_ip),
            created_at: self.created_at,
        }
    }
}

/// One address behind a service.
#[derive(Debug)]
pub struct EndpointAddress {
    /// Address.
    pub ip: String,
    /// Node of the pod.
    pub node_name: Option<String>,
    /// Id of the pod.
    pub pod_id: Option<String>,
}

/// The contents of a [`EndpointAddress`].
#[verifier::ext_equal]
pub struct EndpointAddressV {
    pub ip: Seq<char>,
    pub node_name: Option<Seq<char>>,
    pub pod_id: Option<Seq<char>>,
}

impl DeepView for EndpointAddress {
    type V = EndpointAddressV;

    open spec fn deep_view(&self) -> EndpointAddressV {
        EndpointAddressV {
            ip: self.ip.deep_view(),
            node_name: self.node_name.deep_view(),
            pod_id: self.pod_id.deep_view(),
        }
    }
}

impl Clone for EndpointAddress {
    fn clone(&self) -> (r: Self)
        ensures
            r.deep_view() == self.deep_view(),
    {
        EndpointAddress {
            ip: self.ip.clone(),
            node_name: clone_opt(&self.node_name),
            pod_id: clone_opt(&self.pod_id),
        }
    }
}

impl Duplicate for EndpointAddress {
    fn duplicate(&self) -> (r: Self) {
        self.clone()
    }
}

/// One port behind a service.
#[derive(Debug)]
pub struct EndpointPort {
    /// Name.
    pub name: String,
    /// Port.
    pub port: u16,
    /// Protocol.
    pub protocol: String,
}

/// The contents of a [`EndpointPort`].
#[verifier::ext_equal]
pub struct EndpointPortV {
    pub name: Seq<char>,
    pub port: u16,
    pub protocol: Seq<char>,
}

impl DeepView for EndpointPort {
    type V = EndpointPortV;

    open spec fn deep_view(&self) -> EndpointPortV {
        EndpointPortV {
            name: self.name.deep_view(),
            port: self.port,
            protocol: self.protocol.deep_view(),
        }
    }
}

impl Clone for EndpointPort {
    fn clone(&self) -> (r: Self)
        ensures
            r.deep_view() == self.deep_view(),
    {
        EndpointPort {
            name: self.name.clone(),
            port: self.port,
            protocol: self.protocol.clone(),
        }
    }
}

impl Duplicate for EndpointPort {
    fn duplicate(&self) -> (r: Self) {
        self.clone()
    }
}

/// What stands behind a service.
#[derive(Debug)]
pub struct Endpoint {
    /// Unique id.
    pub id: String,
    /// Id of the service.
    pub service_id: String,
    /// Name of the service.
    pub service_name: String,
    /// Namespace.
    pub namespace: String,
    /// Addresses.
    pub addresses: Vec<EndpointAddress>,
    /// Ports.
    pub ports: Vec<EndpointPort>,
    /// When it was made.
    pub created_at: i128,
}

/// The contents of a [`Endpoint`].
#[verifier::ext_equal]
pub struct EndpointV {
    pub id: Seq<char>,
    pub service_id: Seq<char>,
    pub service_name: Seq<char>,
    pub namespace: Seq<char>,
    pub addresses: Seq<EndpointAddressV>,
    pub ports: Seq<EndpointPortV>,
    pub created_at: i128,
}

impl DeepView for Endpoint {
    type V = EndpointV;

    open spec fn deep_view(&self) -> EndpointV {
        EndpointV {
            id: self.id.deep_view(),
            service_id: self.service_id.deep_view(),
            service_name: self.service_name.deep_view(),
            namespace: self.namespace.deep_view(),
            addresses: self.addresses.deep_view(),
            ports: self.ports.deep_view(),
            created_at: self.created_at,
        }
    }
}

impl Clone for Endpoint {
    fn clone(&self) -> (r: Self)
        ensures
            r.deep_view() == self.deep_view(),
    {
        Endpoint {
            id: self.id.clone(),
            service_id: self.service_id.clone(),
            service_name: self.service_name.clone(),
            namespace: self.namespace.clone(),
            addresses: clone_all(&self.addresses),
            ports: clone_all(&self.ports),
            created_at: self.created_at,
        }
    }
}

/// A virtual network.
#[derive(Debug)]
pub struct Vpc {
    /// Name.
    pub name: String,
    /// Number.
    pub vpc_id: u16,
    /// Address range.
    pub ipv4_cidr: String,
    /// Where it stands.
    pub status: VpcStatus,
    /// When it was created.
    pub created_at: i128,
    /// When it was deleted.
    pub deleted_at: Option<i128>,
}

/// The contents of a [`Vpc`].
#[verifier::ext_equal]
pub struct VpcV {
    pub name: Seq<char>,
    pub vpc_id: u16,
    pub ipv4_cidr: Seq<char>,
    pub status: VpcStatus,
    pub created_at: i128,
    pub deleted_at: Option<i128>,
}

impl DeepView for Vpc {
    type V = VpcV;

    open spec fn deep_view(&self) -> VpcV {
        VpcV {
            name: self.name.deep_view(),
            vpc_id: self.vpc_id,
            ipv4_cidr: self.ipv4_cidr.deep_view(),
            status: self.status,
            created_at: self.created_at,
            deleted_at: self.deleted_at,
        }
    }
}

impl Clone for Vpc {
    fn clone(&self) -> (r: Self)
        ensures
            r.deep_view() == self.deep_view(),
    {
        Vpc {
            name: self.name.clone(),
            vpc_id: self.vpc_id,
            ipv4_cidr: self.ipv4_cidr.clone(),
            status: self.status,
            created_at: self.created_at,
            deleted_at: self.deleted_at,
        }
    }
}

/// A link between two virtual networks.
#[derive(Debug)]
pub struct VpcPeering {
    /// Name.
    pub name: String,
    /// One network.
    pub vpc_a: String,
    /// The other network.
    pub vpc_b: String,
    /// Where it stands.
    pub status: PeeringStatus,
    /// When it was created.
    pub created_at: i128,
}

/// The contents of a [`VpcPeering`].
#[verifier::ext_equal]
pub struct VpcPeeringV {
    pub name: Seq<char>,
    pub vpc_a: Seq<char>,
    pub vpc_b: Seq<char>,
    pub status: PeeringStatus,
    pub created_at: i128,
}

impl DeepView for VpcPeering {
    type V = VpcPeeringV;

    open spec fn deep_view(&self) -> VpcPeeringV {
        VpcPeeringV {
            name: self.name.deep_view(),
            vpc_a: self.vpc_a.deep_view(),
            vpc_b: self.vpc_b.deep_view(),
            status: self.status,
            created_at: self.created_at,
        }
    }
}

impl Clone for VpcPeering {
    fn clone(&self) -> (r: Self)
        ensures
            r.deep_view() == self.deep_view(),
    {
        VpcPeering {
            name: self.name.clone(),
            vpc_a: self.vpc_a.clone(),
            vpc_b: self.vpc_b.clone(),
            status: self.status,
            created_at: self.created_at,
        }
    }
}

/// A namespace.
#[derive(Debug)]
pub struct Namespace {
    /// Name.
    pub name: String,
    /// Labels.
    pub labels: Labels,
    /// When it was created.
    pub created_at: i128,
}

/// The contents of a [`Namespace`].
#[verifier::ext_equal]
pub struct NamespaceV {
    pub name: Seq<char>,
    pub labels: Map<Seq<char>, Seq<char>>,
    pub created_at: i128,
}

impl DeepView for Namespace {
    type V = NamespaceV;

    open spec fn deep_view(&self) -> NamespaceV {
        NamespaceV {
            name: self.name.deep_view(),
            labels: self.labels.deep_view(),
            created_at: self.created_at,
        }
    }
}

impl Clone for Namespace {
    fn clone(&self) -> (r: Self)
        ensures
            r.deep_view() == self.deep_view(),
    {
        Namespace {
            name: self.name.clone(),
            labels: clone_labels(&self.labels),
            created_at: self.created_at,
        }
    }
}

// ---------------------------------------------------------------------------
// Pods on nodes
// ---------------------------------------------------------------------------

/// Whether a pod is on a node: it is bound to the node's id or to its name.
pub open spec fn on_node(pod: PodV, node: NodeV) -> bool {
    pod.node_name == Some(node.id) || pod.node_name == Some(node.name)
}

/// Decides whether a pod is on a node.
pub fn is_on_node(pod: &Pod, node: &Node) -> (r: bool)
    ensures
        r == on_node(pod.deep_view(), node.deep_view()),
{
    opt_is(&pod.node_name, node.id.as_str()) || opt_is(&pod.node_name, node.name.as_str())
}

/// Whether a pod is on one of the nodes.
pub open spec fn on_any(pod: PodV, nodes: Seq<NodeV>) -> bool {
    exists|i: int| 0 <= i < nodes.len() && on_node(pod, #[trigger] nodes[i])
}

/// Decides whether a pod is on one of the nodes.
pub fn is_on_any(pod: &Pod, nodes: &Vec<Node>) -> (r: bool)
    ensures
        r == on_any(pod.deep_view(), nodes.deep_view()),
{
    let ghost all = nodes.deep_view();
    let mut i: usize = 0;
    while i < nodes.len()
        invariant
            i <= nodes@.len(),
            all == nodes.deep_view(),
            forall|j: int| 0 <= j < i ==> !on_node(pod.deep_view(), #[trigger] all[j]),
        decreases nodes@.len() - i,
    {
        assert(all[i as int] == nodes@[i as int].deep_view());
        if is_on_node(pod, &nodes[i]) {
            return true;
        }
        i = i + 1;
    }
    false
}

/// Whether no node has the id or the name of another for its id or its name.
pub open spec fn nodes_apart(nodes: Seq<NodeV>) -> bool {
    forall|i: int, j: int|
        0 <= i < nodes.len() && 0 <= j < nodes.len() && i != j ==> (#[trigger] nodes[i]).id != (
        #[trigger] nodes[j]).id && nodes[i].name != nodes[j].name && nodes[i].id != nodes[j].name
}

/// A pod is on at most one of the nodes, if those are told apart by their ids and
/// names.
pub proof fn law_pod_is_on_one_node(pod: PodV, nodes: Seq<NodeV>, i: int, j: int)
    requires
        nodes_apart(nodes),
        0 <= i < nodes.len(),
        0 <= j < nodes.len(),
        on_node(pod, nodes[i]),
        on_node(pod, nodes[j]),
    ensures
        i == j,
{
}

} // verus!
