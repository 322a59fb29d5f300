//! What the micro-VM backends share: the guest's configuration and environment,
//! the table of instances, and the last lines of logs.
use vstd::prelude::*;
use vstd::string::*;
#[allow(unused_imports)]
use vstd::utf8::encode_utf8;
use crate::collections::StrMap;
#[allow(unused_imports)]
use crate::container::state::ContainerStateInfo;
#[allow(unused_imports)]
use crate::container::state::ContainerStateInfoV;
use crate::json::{parse_text, strings, strings_in, text, to_pretty, Fields, Json};
#[allow(unused_imports)]
use crate::json::{
    field,
    is_plain,
    json_in,
    lemma_plain_deeper,
    lemma_texts_kept,
    text_array,
    texts_in,
    writes,
    JsonV,
};
use crate::keys::join_path;
#[allow(unused_imports)]
use crate::keys::path_join;
use crate::model::clone_strings;
use crate::split::take_before;
#[allow(unused_imports)]
use crate::split::{before_char, last_of, lines_of};
use crate::split::tail_lines;
use crate::text::{cat, cat3, cat5, starts_with};
#[allow(unused_imports)]
use crate::text::has_prefix;
#[allow(unused_imports)]
use crate::json::{lemma_plain_key, plain_key};

verus! {

broadcast use crate::json::group_plain;

/// The keys of the objects that are written here are plain.
proof fn lemma_keys()
    ensures
        plain_key("args"@),
        plain_key("cwd"@),
        plain_key("env"@),
        plain_key("hostname"@),
        plain_key("ociVersion"@),
        plain_key("process"@),
{
    reveal_strlit("args");
    reveal_strlit("cwd");
    reveal_strlit("env");
    reveal_strlit("hostname");
    reveal_strlit("ociVersion");
    reveal_strlit("process");
    lemma_plain_key("args"@);
    lemma_plain_key("cwd"@);
    lemma_plain_key("env"@);
    lemma_plain_key("hostname"@);
    lemma_plain_key("ociVersion"@);
    lemma_plain_key("process"@);
}

/// VPC networking parameters for a VM.
#[derive(Debug)]
pub struct VmNetworkConfig {
    /// Address inside the guest.
    pub guest_ipv4: String,
    /// Address in the mesh.
    pub guest_ipv6: String,
    /// Number of the VPC.
    pub vpc_id: u16,
    /// Range of the VPC.
    pub vpc_cidr: String,
    /// Hardware address of the gateway.
    pub gw_mac: String,
    /// Prefix of the platform.
    pub platform_prefix: u32,
    /// Number of the cluster.
    pub cluster_id: u32,
}

/// Per-VM resource configuration.
#[derive(Debug, Clone, Copy, PartialEq, Eq, Structural)]
pub struct VmConfig {
    /// Number of vCPUs.
    pub cpu_count: u32,
    /// Memory in megabytes.
    pub memory_mb: u64,
}

impl Default for VmConfig {
    fn default() -> (r: Self)
        ensures
            r.cpu_count == 1,
            r.memory_mb == 256,
    {
        VmConfig { cpu_count: 1, memory_mb: 256 }
    }
}

// ---------------------------------------------------------------------------
// Bundles
// ---------------------------------------------------------------------------

/// A list of strings in the process section of a bundle configuration.
pub open spec fn process_texts(bundle: Option<JsonV>, key: Seq<char>) -> Seq<Seq<char>> {
    match bundle {
        Some(v) => match field(v, "process"@) {
            Some(p) => texts_in(field(p, key)),
            None => Seq::empty(),
        },
        None => Seq::empty(),
    }
}

/// What the text of a bundle configuration denotes, where there is one.
pub open spec fn bundle_json(data: Option<Seq<char>>) -> Option<JsonV> {
    match data {
        Some(d) => json_in(encode_utf8(d)),
        None => None,
    }
}

fn list_in_process(bundle: &Option<Json>, key: &str) -> (r: Vec<String>)
    ensures
        r.deep_view() == process_texts(bundle.deep_view(), key@),
{
    let empty: Vec<String> = Vec::new();
    assert(empty.deep_view() =~= Seq::<Seq<char>>::empty());
    match bundle {
        Some(v) => match v.get("process") {
            Some(p) => strings_in(p.get(key)),
            None => empty,
        },
        None => empty,
    }
}

/// The command line and environment that a bundle configuration holds.
pub fn bundle_command(bundle: &Option<Json>) -> (r: (Vec<String>, Vec<String>))
    ensures
        r.0.deep_view() == process_texts(bundle.deep_view(), "args"@),
        r.1.deep_view() == process_texts(bundle.deep_view(), "env"@),
{
    (list_in_process(bundle, "args"), list_in_process(bundle, "env"))
}

/// Parses the text of a bundle configuration, where there is one, to extract
/// command and environment. Both are empty where it cannot be read.
pub fn parse_bundle_config(data: Option<&str>) -> (r: (Vec<String>, Vec<String>))
    ensures
        r.0.deep_view() == process_texts(bundle_json(data.deep_view()), "args"@),
        r.1.deep_view() == process_texts(bundle_json(data.deep_view()), "env"@),
{
    let bundle: Option<Json> = match data {
        Some(d) => parse_text(d),
        None => None,
    };
    bundle_command(&bundle)
}

// ---------------------------------------------------------------------------
// The guest
// ---------------------------------------------------------------------------

/// Whether some entry of an environment sets a variable.
pub open spec fn sets(env: Seq<Seq<char>>, key: Seq<char>) -> bool {
    exists|i: int| 0 <= i < env.len() && has_prefix(#[trigger] env[i], key + "="@)
}

/// The environment that every guest starts from.
pub open spec fn base_env(id: Seq<char>) -> Seq<Seq<char>> {
    seq![
        "PATH=/usr/local/sbin:/usr/local/bin:/usr/sbin:/usr/bin:/sbin:/bin"@,
        "HOSTNAME="@ + id,
        "TERM=xterm"@,
    ]
}

/// An environment with entries added, each unless it names no variable or one
/// that is set already.
pub open spec fn merged_env(base: Seq<Seq<char>>, extra: Seq<Seq<char>>) -> Seq<Seq<char>>
    decreases extra.len(),
{
    if extra.len() == 0 {
        base
    } else {
        let m = merged_env(base, extra.drop_last());
        let key = before_char(extra.last(), '=');
        if key.len() > 0 && !sets(m, key) {
            m.push(extra.last())
        } else {
            m
        }
    }
}

/// The command of a guest: a shell where none is given.
pub open spec fn guest_args(command: Seq<Seq<char>>) -> Seq<Seq<char>> {
    if command.len() == 0 {
        seq!["/bin/sh"@]
    } else {
        command
    }
}

/// The configuration that the guest's init reads.
pub open spec fn guest_config(
    id: Seq<char>,
    args: Seq<Seq<char>>,
    env: Seq<Seq<char>>,
) -> JsonV {
    JsonV::Object(
        map![
            "ociVersion"@ => JsonV::Text("1.0.0"@),
            "process"@ => JsonV::Object(map![
                "args"@ => text_array(args),
                "env"@ => text_array(env),
                "cwd"@ => JsonV::Text("/"@)
            ]),
            "hostname"@ => JsonV::Text(id)
        ],
    )
}

/// Decides whether some entry of an environment sets a variable.
pub fn is_set(env: &Vec<String>, key: &str) -> (r: bool)
    ensures
        r == sets(env.deep_view(), key@),
{
    let ghost all = env.deep_view();
    let prefix: String = cat(key, "=");
    let mut i: usize = 0;
    while i < env.len()
        invariant
            i <= env@.len(),
            all == env.deep_view(),
            prefix@ == key@ + "="@,
            forall|j: int| 0 <= j < i ==> !has_prefix(#[trigger] all[j], key@ + "="@),
        decreases env@.len() - i,
    {
        assert(all[i as int] == env@[i as int]@);
        if starts_with(env[i].as_str(), prefix.as_str()) {
            return true;
        }
        i = i + 1;
    }
    false
}

/// The environment of a guest.
pub fn guest_env(id: &str, extra: &Vec<String>) -> (r: Vec<String>)
    ensures
        r.deep_view() == merged_env(base_env(id@), extra.deep_view()),
{
    let ghost all = extra.deep_view();
    let mut env: Vec<String> = Vec::new();
    env.push("PATH=/usr/local/sbin:/usr/local/bin:/usr/sbin:/usr/bin:/sbin:/bin".to_owned());
    env.push(cat("HOSTNAME=", id));
    env.push("TERM=xterm".to_owned());
    assert(env.deep_view() =~= base_env(id@));
    let mut i: usize = 0;
    assert(all.take(0) =~= Seq::<Seq<char>>::empty());
    while i < extra.len()
        invariant
            i <= extra@.len(),
            all == extra.deep_view(),
            env.deep_view() == merged_env(base_env(id@), all.take(i as int)),
        decreases extra@.len() - i,
    {
        assert(all.take(i + 1).drop_last() =~= all.take(i as int));
        assert(all.take(i + 1).last() == extra@[i as int]@);
        let key: String = take_before(extra[i].as_str(), '=');
        if !key.as_str().is_empty() && !is_set(&env, key.as_str()) {
            let ghost before = env.deep_view();
            env.push(extra[i].clone());
            assert(env.deep_view() =~= before.push(all[i as int]));
        }
        i = i + 1;
    }
    assert(all.take(i as int) =~= all);
    env
}

/// The command of a guest.
pub fn command_or_shell(command: &Vec<String>) -> (r: Vec<String>)
    ensures
        r.deep_view() == guest_args(command.deep_view()),
{
    if command.len() == 0 {
        let mut out: Vec<String> = Vec::new();
        out.push("/bin/sh".to_owned());
        assert(out.deep_view() =~= seq!["/bin/sh"@]);
        out
    } else {
        clone_strings(command)
    }
}

/// The text of the configuration that the guest's init reads.
pub fn guest_config_text(id: &str, command: &Vec<String>, env: &Vec<String>) -> (r: String)
    ensures
        writes(
            r@,
            guest_config(
                id@,
                guest_args(command.deep_view()),
                merged_env(base_env(id@), env.deep_view()),
            ),
        ),
{
    proof {
        lemma_keys();
    }
    let args: Vec<String> = command_or_shell(command);
    let all_env: Vec<String> = guest_env(id, env);
    let process: Json = Fields::new().with("args", strings(&args)).with(
        "env",
        strings(&all_env),
    ).with("cwd", text("/")).object();
    assert(is_plain(process.deep_view(), 2));
    proof {
        lemma_plain_deeper(process.deep_view(), 2, 126);
    }
    let config: Json = Fields::new().with("ociVersion", text("1.0.0")).with(
        "process",
        process,
    ).with("hostname", text(id)).object();
    to_pretty(config)
}

/// The directories that a guest needs.
pub open spec fn guest_dir_names() -> Seq<Seq<char>> {
    seq![
        "sbin"@,
        "proc"@,
        "sys"@,
        "dev"@,
        "dev/pts"@,
        "dev/shm"@,
        "tmp"@,
        "run"@,
        "mnt/rootfs"@,
        "etc"@,
    ]
}

/// Lists the directories that a guest needs.
pub fn guest_dirs() -> (r: Vec<&'static str>)
    ensures
        r.deep_view() == guest_dir_names(),
{
    let v: Vec<&'static str> = vec![
        "sbin",
        "proc",
        "sys",
        "dev",
        "dev/pts",
        "dev/shm",
        "tmp",
        "run",
        "mnt/rootfs",
        "etc",
    ];
    assert(v.deep_view() =~= guest_dir_names());
    v
}

/// The resolver configuration of a guest.
pub fn resolv_conf() -> (r: &'static str)
    ensures
        r@ == "nameserver 8.8.8.8\nnameserver 8.8.4.4\n"@,
{
    "nameserver 8.8.8.8\nnameserver 8.8.4.4\n"
}

// ---------------------------------------------------------------------------
// Finding the init binary
// ---------------------------------------------------------------------------

/// Where the init binary may be, in the order of the search: the system
/// install, the user's install, the build output.
pub open spec fn init_places(home: Option<Seq<char>>) -> Seq<Seq<char>> {
    let build = seq![
        "./target/aarch64-unknown-linux-musl/release/k3rs-init"@,
        "./target/aarch64-unknown-linux-musl/debug/k3rs-init"@,
        "./target/x86_64-unknown-linux-musl/release/k3rs-init"@,
        "./target/x86_64-unknown-linux-musl/debug/k3rs-init"@,
    ];
    match home {
        Some(h) => seq!["/var/lib/k3rs/bin/k3rs-init"@, path_join(h, ".k3rs/bin/k3rs-init"@)]
            + build,
        None => seq!["/var/lib/k3rs/bin/k3rs-init"@] + build,
    }
}

/// Lists where the init binary may be.
pub fn init_candidates(home: Option<&str>) -> (r: Vec<String>)
    ensures
        r.deep_view() == init_places(home.deep_view()),
{
    let mut out: Vec<String> = Vec::new();
    out.push("/var/lib/k3rs/bin/k3rs-init".to_owned());
    if let Some(h) = home {
        out.push(join_path(h, ".k3rs/bin/k3rs-init"));
    }
    out.push("./target/aarch64-unknown-linux-musl/release/k3rs-init".to_owned());
    out.push("./target/aarch64-unknown-linux-musl/debug/k3rs-init".to_owned());
    out.push("./target/x86_64-unknown-linux-musl/release/k3rs-init".to_owned());
    out.push("./target/x86_64-unknown-linux-musl/debug/k3rs-init".to_owned());
    assert(out.deep_view() =~= init_places(home.deep_view()));
    out
}

/// The first place that exists.
pub open spec fn first_present(places: Seq<Seq<char>>, present: Seq<bool>) -> Option<Seq<char>>
    decreases places.len(),
{
    if places.len() == 0 || present.len() == 0 {
        None
    } else if present[0] {
        Some(places[0])
    } else {
        first_present(places.skip(1), present.skip(1))
    }
}

/// Picks the first place that exists.
pub fn pick_present(places: &Vec<String>, present: &Vec<bool>) -> (r: Option<String>)
    ensures
        r.deep_view() == first_present(places.deep_view(), present@),
{
    let ghost ps = places.deep_view();
    let mut i: usize = 0;
    assert(ps.skip(0) =~= ps);
    assert(present@.skip(0) =~= present@);
    while i < places.len() && i < present.len()
        invariant
            i <= places@.len(),
            i <= present@.len(),
            ps == places.deep_view(),
            first_present(ps, present@) == first_present(
                ps.skip(i as int),
                present@.skip(i as int),
            ),
        decreases places@.len() - i,
    {
        assert(ps.skip(i as int)[0] == places@[i as int]@);
        if present[i] {
            return Some(places[i].clone());
        }
        assert(ps.skip(i as int).skip(1) =~= ps.skip(i + 1));
        assert(present@.skip(i as int).skip(1) =~= present@.skip(i + 1));
        i = i + 1;
    }
    None
}

// ---------------------------------------------------------------------------
// Instances
// ---------------------------------------------------------------------------

/// The lifecycle of a VM.
#[derive(Debug, Clone, Copy, PartialEq, Eq, Structural)]
pub enum VmState {
    /// Prepared, not yet booted.
    Created,
    /// Booted.
    Running,
    /// Shut down.
    Stopped,
}

/// The text of a VM state.
pub open spec fn vm_state_text(s: VmState) -> Seq<char> {
    match s {
        VmState::Created => "created"@,
        VmState::Running => "running"@,
        VmState::Stopped => "stopped"@,
    }
}

/// Names a VM state.
pub fn vm_state_name(s: VmState) -> (r: &'static str)
    ensures
        r@ == vm_state_text(s),
{
    match s {
        VmState::Created => "created",
        VmState::Running => "running",
        VmState::Stopped => "stopped",
    }
}

/// What is known of a VM.
#[derive(Debug)]
pub struct VmInstance {
    /// Path to the rootfs directory.
    pub rootfs_dir: String,
    /// PID of the process that runs the VM.
    pub vmm_pid: Option<u32>,
    /// Where the VM stands.
    pub state: VmState,
    /// Path to the console log.
    pub log_path: String,
    /// Context id for the exec channel; zero where unknown.
    pub guest_cid: u32,
    /// Name of the network device, where there is one.
    pub tap_name: Option<String>,
}

/// The contents of a [`VmInstance`].
#[verifier::ext_equal]
pub struct VmInstanceV {
    pub rootfs_dir: Seq<char>,
    pub vmm_pid: Option<u32>,
    pub state: VmState,
    pub log_path: Seq<char>,
    pub guest_cid: u32,
    pub tap_name: Option<Seq<char>>,
}

impl DeepView for VmInstance {
    type V = VmInstanceV;

    open spec fn deep_view(&self) -> VmInstanceV {
        VmInstanceV {
            rootfs_dir: self.rootfs_dir@,
            vmm_pid: self.vmm_pid,
            state: self.state,
            log_path: self.log_path@,
            guest_cid: self.guest_cid,
            tap_name: self.tap_name.deep_view(),
        }
    }
}

/// The path of a file of a VM: `{data_dir}/{id}{suffix}`.
pub open spec fn vm_file(data_dir: Seq<char>, id: Seq<char>, suffix: Seq<char>) -> Seq<char> {
    path_join(data_dir, id + suffix)
}

/// Builds the path of a file of a VM.
pub fn vm_path(data_dir: &str, id: &str, suffix: &str) -> (r: String)
    ensures
        r@ == vm_file(data_dir@, id@, suffix@),
{
    join_path(data_dir, cat(id, suffix).as_str())
}

/// The rootfs directory of a bundle: its `rootfs` if it has one, else the bundle
/// itself.
pub fn bundle_rootfs(bundle: &str, has_rootfs: bool) -> (r: String)
    ensures
        r@ == if has_rootfs {
            path_join(bundle@, "rootfs"@)
        } else {
            bundle@
        },
{
    if has_rootfs {
        join_path(bundle, "rootfs")
    } else {
        bundle.to_owned()
    }
}

/// What a VM that was prepared looks like.
pub open spec fn fresh_vm(rootfs_dir: Seq<char>, log_path: Seq<char>, cid: u32) -> VmInstanceV {
    VmInstanceV {
        rootfs_dir,
        vmm_pid: None,
        state: VmState::Created,
        log_path,
        guest_cid: cid,
        tap_name: None,
    }
}

/// What a VM that was found running looks like.
pub open spec fn recovered_vm(data_dir: Seq<char>, id: Seq<char>, pid: Option<u32>) -> VmInstanceV {
    VmInstanceV {
        rootfs_dir: vm_file(data_dir, id, "-rootfs"@),
        vmm_pid: pid,
        state: VmState::Running,
        log_path: vm_file(data_dir, id, ".log"@),
        guest_cid: 0,
        tap_name: None,
    }
}

/// A VM after its boot.
pub open spec fn booted(v: VmInstanceV, pid: Option<u32>, tap: Option<Seq<char>>) -> VmInstanceV {
    VmInstanceV { state: VmState::Running, vmm_pid: pid, tap_name: tap, ..v }
}

/// A VM after its end.
pub open spec fn halted(v: VmInstanceV) -> VmInstanceV {
    VmInstanceV { state: VmState::Stopped, vmm_pid: None, ..v }
}

/// The instances after one of them, if it is there, was started.
pub open spec fn vm_started(
    t: Map<Seq<char>, VmInstanceV>,
    id: Seq<char>,
    pid: Option<u32>,
    tap: Option<Seq<char>>,
) -> Map<Seq<char>, VmInstanceV> {
    if t.contains_key(id) {
        t.insert(id, booted(t[id], pid, tap))
    } else {
        t
    }
}

/// The instances after one of them, if it is there, was stopped.
pub open spec fn vm_stopped(t: Map<Seq<char>, VmInstanceV>, id: Seq<char>) -> Map<
    Seq<char>,
    VmInstanceV,
> {
    if t.contains_key(id) {
        t.insert(id, halted(t[id]))
    } else {
        t
    }
}

/// The instances after one that runs was found, if it is not there yet.
pub open spec fn vm_recovered(
    t: Map<Seq<char>, VmInstanceV>,
    data_dir: Seq<char>,
    id: Seq<char>,
    pid: Option<u32>,
) -> Map<Seq<char>, VmInstanceV> {
    if t.contains_key(id) {
        t
    } else {
        t.insert(id, recovered_vm(data_dir, id, pid))
    }
}

/// What is reported of a VM.
pub open spec fn vm_report(id: Seq<char>, v: VmInstanceV) -> ContainerStateInfoV {
    ContainerStateInfoV {
        id,
        status: vm_state_text(v.state),
        pid: match v.vmm_pid {
            Some(p) => p,
            None => 0,
        },
        bundle: v.rootfs_dir,
    }
}

/// A table with the VMs of a listing entered where they were not known.
pub open spec fn with_recovered(
    data_dir: Seq<char>,
    t: Map<Seq<char>, VmInstanceV>,
    listing: Seq<(Seq<char>, Option<u32>)>,
) -> Map<Seq<char>, VmInstanceV>
    decreases listing.len(),
{
    if listing.len() == 0 {
        t
    } else {
        let m = with_recovered(data_dir, t, listing.drop_last());
        let e = listing.last();
        if m.contains_key(e.0) {
            m
        } else {
            m.insert(e.0, recovered_vm(data_dir, e.0, e.1))
        }
    }
}

/// The VMs that a backend knows.
pub struct VmTable {
    vms: StrMap<VmInstance>,
}

impl DeepView for VmTable {
    type V = Map<Seq<char>, VmInstanceV>;

    closed spec fn deep_view(&self) -> Map<Seq<char>, VmInstanceV> {
        self.vms.deep_view()
    }
}

impl VmTable {
    /// An empty table.
    pub fn new() -> (r: Self)
        ensures
            r.deep_view() == Map::<Seq<char>, VmInstanceV>::empty(),
    {
        VmTable { vms: StrMap::new() }
    }

    /// Enters a VM that was prepared.
    pub fn create(&mut self, id: &str, rootfs_dir: &str, log_path: &str, cid: u32)
        ensures
            final(self).deep_view() == old(self).deep_view().insert(
                id@,
                fresh_vm(rootfs_dir@, log_path@, cid),
            ),
    {
        let v: VmInstance = VmInstance {
            rootfs_dir: rootfs_dir.to_owned(),
            vmm_pid: None,
            state: VmState::Created,
            log_path: log_path.to_owned(),
            guest_cid: cid,
            tap_name: None,
        };
        self.vms.insert(id.to_owned(), v);
    }

    /// Enters a VM that was found running, unless it is known. Returns whether
    /// it was entered.
    pub fn recover(&mut self, data_dir: &str, id: &str, pid: Option<u32>) -> (r: bool)
        ensures
            r == !old(self).deep_view().contains_key(id@),
            final(self).deep_view() == vm_recovered(old(self).deep_view(), data_dir@, id@, pid),
    {
        if self.vms.contains_key(id) {
            return false;
        }
        let v: VmInstance = VmInstance {
            rootfs_dir: vm_path(data_dir, id, "-rootfs"),
            vmm_pid: pid,
            state: VmState::Running,
            log_path: vm_path(data_dir, id, ".log"),
            guest_cid: 0,
            tap_name: None,
        };
        self.vms.insert(id.to_owned(), v);
        true
    }

    /// Records that a VM has booted, where it is known.
    pub fn start(&mut self, id: &str, pid: Option<u32>, tap: Option<String>)
        ensures
            final(self).deep_view() == vm_started(old(self).deep_view(), id@, pid, tap.deep_view()),
    {
        match self.vms.remove(id) {
            Some(v) => {
                let mut x: VmInstance = v;
                x.state = VmState::Running;
                x.vmm_pid = pid;
                x.tap_name = tap;
                self.vms.insert(id.to_owned(), x);
                assert(self.deep_view() =~= old(self).deep_view().insert(
                    id@,
                    booted(old(self).deep_view()[id@], pid, tap.deep_view()),
                ));
            },
            None => {
                assert(self.deep_view() =~= old(self).deep_view());
            },
        }
    }

    /// Records that a VM has ended, where it is known.
    pub fn stop(&mut self, id: &str)
        ensures
            final(self).deep_view() == vm_stopped(old(self).deep_view(), id@),
    {
        match self.vms.remove(id) {
            Some(v) => {
                let mut x: VmInstance = v;
                x.state = VmState::Stopped;
                x.vmm_pid = None;
                self.vms.insert(id.to_owned(), x);
                assert(self.deep_view() =~= old(self).deep_view().insert(
                    id@,
                    halted(old(self).deep_view()[id@]),
                ));
            },
            None => {
                assert(self.deep_view() =~= old(self).deep_view());
            },
        }
    }

    /// Removes a VM and hands out what was known of it.
    pub fn delete(&mut self, id: &str) -> (r: Option<VmInstance>)
        ensures
            final(self).deep_view() == old(self).deep_view().remove(id@),
            r.deep_view() == if old(self).deep_view().contains_key(id@) {
                Some(old(self).deep_view()[id@])
            } else {
                None
            },
    {
        self.vms.remove(id)
    }

    /// What is known of a VM.
    pub fn get(&self, id: &str) -> (r: Option<&VmInstance>)
        ensures
            r.deep_view() == if self.deep_view().contains_key(id@) {
                Some(self.deep_view()[id@])
            } else {
                None
            },
    {
        self.vms.get(id)
    }

    /// Whether a VM is known to run.
    pub fn is_running(&self, id: &str) -> (r: bool)
        ensures
            r == (self.deep_view().contains_key(id@) && self.deep_view()[id@].state
                == VmState::Running),
    {
        match self.vms.get(id) {
            Some(v) => v.state == VmState::Running,
            None => false,
        }
    }

    /// What is reported of a VM, where it is known.
    pub fn report(&self, id: &str) -> (r: Option<ContainerStateInfo>)
        ensures
            r.deep_view() == if self.deep_view().contains_key(id@) {
                Some(vm_report(id@, self.deep_view()[id@]))
            } else {
                None
            },
    {
        match self.vms.get(id) {
            Some(v) => Some(
                ContainerStateInfo {
                    id: id.to_owned(),
                    status: vm_state_name(v.state).to_owned(),
                    pid: match v.vmm_pid {
                        Some(p) => p,
                        None => 0,
                    },
                    bundle: v.rootfs_dir.clone(),
                },
            ),
            None => None,
        }
    }

    /// The ids of the VMs that are known to run, each once.
    pub fn running(&self) -> (r: Vec<String>)
        ensures
            r.deep_view().no_duplicates(),
            forall|k: Seq<char>| #[trigger]
                r.deep_view().contains(k) <==> self.deep_view().contains_key(k)
                    && self.deep_view()[k].state == VmState::Running,
    {
        let n: usize = self.vms.len();
        let ghost items = self.vms.items();
        proof {
            crate::collections::lemma_map_of(items);
        }
        let mut out: Vec<String> = Vec::new();
        let mut i: usize = 0;
        while i < n
            invariant
                i <= n,
                n == self.vms.items().len(),
                items == self.vms.items(),
                crate::collections::keys_distinct(items),
                out.deep_view().no_duplicates(),
                forall|k: Seq<char>| #[trigger]
                    out.deep_view().contains(k) <==> exists|j: int|
                        0 <= j < i && (#[trigger] items[j]).0 == k && items[j].1.state
                            == VmState::Running,
            decreases n - i,
        {
            if self.vms.value_at(i).state == VmState::Running {
                let key: String = self.vms.key_at(i).clone();
                let ghost before = out.deep_view();
                let ghost kv = key@;
                out.push(key);
                proof {
                    assert(out.deep_view() =~= before.push(kv));
                    assert(!before.contains(kv));
                    assert forall|k: Seq<char>| #[trigger] out.deep_view().contains(k) <==> exists|
                        j: int,
                    |
                        0 <= j < i + 1 && (#[trigger] items[j]).0 == k && items[j].1.state
                            == VmState::Running by {
                        if out.deep_view().contains(k) {
                            if k == kv {
                                assert(items[i as int].0 == k);
                            } else {
                                assert(before.contains(k)) by {
                                    let a = choose|a: int|
                                        0 <= a < out.deep_view().len() && out.deep_view()[a] == k;
                                    assert(before[a] == k);
                                }
                            }
                        }
                        if exists|j: int|
                            0 <= j < i + 1 && (#[trigger] items[j]).0 == k && items[j].1.state
                                == VmState::Running {
                            let j = choose|j: int|
                                0 <= j < i + 1 && (#[trigger] items[j]).0 == k && items[j].1.state
                                    == VmState::Running;
                            if j == i {
                                assert(out.deep_view()[before.len() as int] == k);
                            } else {
                                assert(before.contains(k));
                                let a = choose|a: int| 0 <= a < before.len() && before[a] == k;
                                assert(out.deep_view()[a] == k);
                            }
                        }
                    }
                }
            }
            i = i + 1;
        }
        proof {
            assert forall|k: Seq<char>| #[trigger]
                out.deep_view().contains(k) <==> self.deep_view().contains_key(k)
                    && self.deep_view()[k].state == VmState::Running by {
                if self.deep_view().contains_key(k) && self.deep_view()[k].state
                    == VmState::Running {
                    let j = choose|j: int| 0 <= j < items.len() && (#[trigger] items[j]).0 == k;
                    assert(items[j].1.state == VmState::Running);
                }
            }
        }
        out
    }
}

/// The last lines of a VM's log, or a notice where it has none.
pub fn vm_logs(tag: &str, id: &str, content: Option<&str>, tail: usize) -> (r: Vec<String>)
    ensures
        r.deep_view() == match content {
            Some(c) => last_of(lines_of(c@), tail as int),
            None => seq!["["@ + tag@ + "] no logs for VM "@ + id@],
        },
{
    match content {
        Some(c) => tail_lines(c, tail),
        None => {
            let mut s: String = cat3("[", tag, "] no logs for VM ");
            s.append(id);
            let ghost sv = s@;
            let mut out: Vec<String> = Vec::new();
            out.push(s);
            assert(out.deep_view() =~= seq![sv]);
            out
        },
    }
}

/// What is said of a command for a VM that does not run.
pub fn not_running(id: &str, status: &str) -> (r: String)
    ensures
        r@ == "VM "@ + id@ + " is not running (status: "@ + status@ + ")"@,
{
    cat5("VM ", id, " is not running (status: ", status, ")")
}

// ---------------------------------------------------------------------------
// Laws
// ---------------------------------------------------------------------------

/// What comes next while something is waited for.
#[derive(Debug, Clone, Copy, PartialEq, Eq, Structural)]
pub enum WaitStep {
    /// It is there.
    Ready,
    /// Wait for so many milliseconds and look again.
    Sleep(u64),
    /// It did not appear.
    Missing,
}

/// What comes next after so many waits: what is there is not waited for, and what
/// is not is given up after the last wait.
pub open spec fn wait_step(waited: u32, limit: u32, millis: u64, present: bool) -> WaitStep {
    if present {
        WaitStep::Ready
    } else if waited < limit {
        WaitStep::Sleep(millis)
    } else {
        WaitStep::Missing
    }
}

/// Decides what comes next after so many waits.
pub fn next_wait(waited: u32, limit: u32, millis: u64, present: bool) -> (r: WaitStep)
    ensures
        r == wait_step(waited, limit, millis, present),
{
    if present {
        WaitStep::Ready
    } else if waited < limit {
        WaitStep::Sleep(millis)
    } else {
        WaitStep::Missing
    }
}

/// What is written for a guest is read back as its command and environment.
pub proof fn law_guest_reads_its_command(
    t: Seq<char>,
    id: Seq<char>,
    args: Seq<Seq<char>>,
    env: Seq<Seq<char>>,
)
    requires
        writes(t, guest_config(id, args, env)),
    ensures
        process_texts(bundle_json(Some(t)), "args"@) == args,
        process_texts(bundle_json(Some(t)), "env"@) == env,
{
    reveal_strlit("process");
    reveal_strlit("hostname");
    reveal_strlit("args");
    reveal_strlit("env");
    reveal_strlit("cwd");
    assert("process"@.len() != "hostname"@.len());
    assert("args"@.len() != "env"@.len() && "args"@.len() != "cwd"@.len());
    assert("env"@[0] != "cwd"@[0]);
    lemma_texts_kept(args);
    lemma_texts_kept(env);
}

/// Merging keeps what was set: the base comes first, in order, and no variable
/// of it is overridden.
pub proof fn law_guest_env_keeps_base(base: Seq<Seq<char>>, extra: Seq<Seq<char>>)
    ensures
        merged_env(base, extra).len() >= base.len(),
        merged_env(base, extra).take(base.len() as int) == base,
    decreases extra.len(),
{
    if extra.len() > 0 {
        law_guest_env_keeps_base(base, extra.drop_last());
        assert(merged_env(base, extra).take(base.len() as int) =~= merged_env(
            base,
            extra.drop_last(),
        ).take(base.len() as int));
    } else {
        assert(base.take(base.len() as int) =~= base);
    }
}

/// A VM that was created, started, stopped and deleted leaves no trace, and one
/// that was started runs until it is stopped.
pub proof fn law_vm_lifecycle(
    t: Map<Seq<char>, VmInstanceV>,
    id: Seq<char>,
    v: VmInstanceV,
    pid: u32,
    tap: Option<Seq<char>>,
)
    requires
        !t.contains_key(id),
    ensures
        t.insert(id, v).insert(id, booted(v, Some(pid), tap))[id].state == VmState::Running,
        t.insert(id, v).insert(id, booted(v, Some(pid), tap)).insert(
            id,
            halted(booted(v, Some(pid), tap)),
        )[id].vmm_pid is None,
        t.insert(id, v).insert(id, booted(v, Some(pid), tap)).insert(
            id,
            halted(booted(v, Some(pid), tap)),
        ).remove(id) == t,
{
    assert(t.insert(id, v).insert(id, booted(v, Some(pid), tap)).insert(
        id,
        halted(booted(v, Some(pid), tap)),
    ).remove(id) =~= t);
}

/// Rediscovery never changes what is known of a VM.
pub proof fn law_rediscovery_keeps_known(
    data_dir: Seq<char>,
    t: Map<Seq<char>, VmInstanceV>,
    listing: Seq<(Seq<char>, Option<u32>)>,
    id: Seq<char>,
)
    requires
        t.contains_key(id),
    ensures
        with_recovered(data_dir, t, listing).contains_key(id),
        with_recovered(data_dir, t, listing)[id] == t[id],
    decreases listing.len(),
{
    if listing.len() > 0 {
        law_rediscovery_keeps_known(data_dir, t, listing.drop_last(), id);
    }
}

/// A started instance runs under its process and on its interface, a stopped one
/// has no process any more, and both keep their files; other instances are not
/// touched, and an instance that is not known does not come to be.
pub proof fn law_vm_states(
    t: Map<Seq<char>, VmInstanceV>,
    id: Seq<char>,
    pid: Option<u32>,
    tap: Option<Seq<char>>,
    other: Seq<char>,
)
    requires
        other != id,
    ensures
        t.contains_key(id) ==> {
            let up = vm_started(t, id, pid, tap);
            let down = vm_stopped(up, id);
            &&& up[id].state == VmState::Running && up[id].vmm_pid == pid && up[id].tap_name == tap
            &&& up[id].rootfs_dir == t[id].rootfs_dir && up[id].log_path == t[id].log_path
                && up[id].guest_cid == t[id].guest_cid
            &&& down[id].state == VmState::Stopped && down[id].vmm_pid is None
            &&& down[id].rootfs_dir == t[id].rootfs_dir && down[id].log_path == t[id].log_path
            &&& t.contains_key(other) ==> up[other] == t[other] && down[other] == t[other]
            &&& up.dom() == t.dom() && down.dom() == t.dom()
        },
        !t.contains_key(id) ==> vm_started(t, id, pid, tap) == t && vm_stopped(t, id) == t,
{
    if t.contains_key(id) {
        let up = vm_started(t, id, pid, tap);
        assert(up.dom() =~= t.dom());
        assert(vm_stopped(up, id).dom() =~= t.dom());
    }
}

/// An instance that was found running is taken up as running, with its process and
/// with its files where they are looked for; one that is known stays as it is.
pub proof fn law_vm_is_recovered(
    t: Map<Seq<char>, VmInstanceV>,
    data_dir: Seq<char>,
    id: Seq<char>,
    pid: Option<u32>,
)
    ensures
        t.contains_key(id) ==> vm_recovered(t, data_dir, id, pid) == t,
        !t.contains_key(id) ==> ({
            let v = vm_recovered(t, data_dir, id, pid)[id];
            &&& v.state == VmState::Running
            &&& v.vmm_pid == pid
            &&& v.rootfs_dir == path_join(data_dir, id + "-rootfs"@)
            &&& v.log_path == path_join(data_dir, id + ".log"@)
            &&& v.tap_name is None
        }),
        vm_recovered(t, data_dir, id, pid).contains_key(id),
{
}

/// A new instance is created, without a process.
pub proof fn law_vm_is_created(rootfs_dir: Seq<char>, log_path: Seq<char>, cid: u32)
    ensures
        ({
            let v = fresh_vm(rootfs_dir, log_path, cid);
            &&& v.state == VmState::Created && v.vmm_pid is None && v.tap_name is None
            &&& v.rootfs_dir == rootfs_dir && v.log_path == log_path && v.guest_cid == cid
        }),
{
}

/// An instance is reported by its state, its process, or none where it has none, and
/// its root, and only where it is known.
pub proof fn law_vm_is_reported(t: VmTable, id: &str, r: Option<ContainerStateInfo>, up: bool)
    requires
        call_ensures(VmTable::report, (&t, id), r),
        call_ensures(VmTable::is_running, (&t, id), up),
    ensures
        r is Some <==> t.deep_view().contains_key(id@),
        up <==> t.deep_view().contains_key(id@) && t.deep_view()[id@].state == VmState::Running,
        r matches Some(s) ==> {
            let v = t.deep_view()[id@];
            &&& s.id@ == id@
            &&& s.bundle@ == v.rootfs_dir
            &&& v.state == VmState::Created ==> s.status@ == "created"@
            &&& v.state == VmState::Running ==> s.status@ == "running"@
            &&& v.state == VmState::Stopped ==> s.status@ == "stopped"@
            &&& v.vmm_pid matches Some(p) ==> s.pid == p
            &&& v.vmm_pid is None ==> s.pid == 0
        },
{
}

/// The environment of a guest sets each variable once, the first time: the standard
/// ones first, and an extra one exactly where it has a name that is not set yet.
pub proof fn law_guest_env_sets_once(base: Seq<Seq<char>>, extra: Seq<Seq<char>>, e: Seq<char>)
    ensures
        ({
            let before = merged_env(base, extra);
            let after = merged_env(base, extra.push(e));
            let key = before_char(e, '=');
            let known = exists|i: int|
                0 <= i < before.len() && has_prefix(#[trigger] before[i], key + "="@);
            &&& key.len() == 0 || known ==> after == before
            &&& key.len() > 0 && !known ==> after == before.push(e)
            &&& merged_env(base, Seq::empty()) == base
        }),
{
    assert(extra.push(e).drop_last() =~= extra);
    assert(extra.push(e).last() == e);
}

/// The guest is told its id as its host name, its command or a shell, the root as
/// its directory, and an environment that begins with the standard variables.
pub proof fn law_guest_is_told(
    id: &str,
    command: Vec<String>,
    env: Vec<String>,
    r: String,
)
    requires
        call_ensures(guest_config_text, (id, &command, &env), r),
    ensures
        json_in(encode_utf8(r@)) is Some,
        ({
            let v = json_in(encode_utf8(r@))->0;
            let process = field(v, "process"@)->0;
            &&& field(v, "hostname"@) == Some(JsonV::Text(id@))
            &&& field(process, "cwd"@) == Some(JsonV::Text("/"@))
            &&& command.len() > 0 ==> texts_in(field(process, "args"@)) == command.deep_view()
            &&& command.len() == 0 ==> texts_in(field(process, "args"@)) == seq!["/bin/sh"@]
            &&& texts_in(field(process, "env"@)).len() >= 3
            &&& texts_in(field(process, "env"@))[0]
                == "PATH=/usr/local/sbin:/usr/local/bin:/usr/sbin:/usr/bin:/sbin:/bin"@
            &&& texts_in(field(process, "env"@))[1] == "HOSTNAME="@ + id@
            &&& texts_in(field(process, "env"@))[2] == "TERM=xterm"@
        }),
{
    let args = guest_args(command.deep_view());
    let all = merged_env(base_env(id@), env.deep_view());
    assert(command.deep_view().len() == command.len());
    law_guest_env_keeps_base(base_env(id@), env.deep_view());
    assert(all.take(3)[0] == all[0] && all.take(3)[1] == all[1] && all.take(3)[2] == all[2]);
    lemma_texts_kept(args);
    lemma_texts_kept(all);
    reveal_strlit("process");
    reveal_strlit("hostname");
    reveal_strlit("ociVersion");
    reveal_strlit("args");
    reveal_strlit("env");
    reveal_strlit("cwd");
    assert("process"@.len() == 7 && "hostname"@.len() == 8 && "ociVersion"@.len() == 10);
    assert("args"@.len() == 4 && "env"@.len() == 3 && "cwd"@.len() == 3);
    assert("env"@[0] == 'e' && "cwd"@[0] == 'c');
}

/// Of several places the first that is there is taken, and none where none is.
pub proof fn law_first_present_is_taken(
    places: Vec<String>,
    present: Vec<bool>,
    r: Option<String>,
    i: int,
)
    requires
        call_ensures(pick_present, (&places, &present), r),
        places.len() == present.len(),
        0 <= i <= places.len(),
        forall|j: int| 0 <= j < i ==> !#[trigger] present[j],
        i < places.len() ==> present[i],
    ensures
        i < places.len() ==> r is Some && r->0@ == places[i]@,
        i == places.len() ==> r is None,
{
    lemma_first_present(places.deep_view(), present@, i);
    if i < places.len() {
        assert(places.deep_view()[i] == places[i]@);
    }
}

proof fn lemma_first_present(places: Seq<Seq<char>>, present: Seq<bool>, i: int)
    requires
        places.len() == present.len(),
        0 <= i <= places.len(),
        forall|j: int| 0 <= j < i ==> !#[trigger] present[j],
        i < places.len() ==> present[i],
    ensures
        i < places.len() ==> first_present(places, present) == Some(places[i]),
        i == places.len() ==> first_present(places, present) is None,
    decreases places.len(),
{
    if i > 0 {
        assert(!present[0]);
        let p = places.skip(1);
        let q = present.skip(1);
        assert forall|j: int| 0 <= j < i - 1 implies !#[trigger] q[j] by {
            assert(q[j] == present[j + 1]);
        }
        lemma_first_present(p, q, i - 1);
    }
}

/// What is waited for is used as soon as it is there; otherwise waiting goes on for
/// as many steps as are allowed, each of the given length, and then ends.
pub proof fn law_waiting_ends(waited: u32, limit: u32, millis: u64, present: bool, r: WaitStep)
    requires
        call_ensures(next_wait, (waited, limit, millis, present), r),
    ensures
        present <==> r == WaitStep::Ready,
        !present && waited < limit ==> r == WaitStep::Sleep(millis),
        !present && waited >= limit ==> r == WaitStep::Missing,
{
}

/// Logs are the last lines of what was written, at most as many as were asked for;
/// without a log a line says so.
pub proof fn law_vm_logs_are_the_last_lines(
    tag: &str,
    id: &str,
    content: Option<&str>,
    tail: usize,
    r: Vec<String>,
)
    requires
        call_ensures(vm_logs, (tag, id, content, tail), r),
    ensures
        content matches Some(c) ==> {
            let all = lines_of(c@);
            &&& all.len() <= tail ==> r.deep_view() == all
            &&& all.len() > tail ==> r.len() == tail && forall|i: int|
                0 <= i < tail ==> (#[trigger] r.deep_view()[i]) == all[all.len() - tail + i]
        },
        content is None ==> r.len() == 1,
{
    assert(r.deep_view().len() == r.len());
}

/// What is found running and not known is taken up, each under its own id; nothing
/// else comes to be known.
pub proof fn law_rediscovery_takes_up(
    data_dir: Seq<char>,
    t: Map<Seq<char>, VmInstanceV>,
    listing: Seq<(Seq<char>, Option<u32>)>,
    id: Seq<char>,
)
    ensures
        with_recovered(data_dir, t, listing).contains_key(id) <==> t.contains_key(id)
            || exists|i: int| 0 <= i < listing.len() && (#[trigger] listing[i]).0 == id,
        !t.contains_key(id) && with_recovered(data_dir, t, listing).contains_key(id)
            ==> with_recovered(data_dir, t, listing)[id].state == VmState::Running,
    decreases listing.len(),
{
    if listing.len() > 0 {
        let init = listing.drop_last();
        let n = listing.len() - 1;
        law_rediscovery_takes_up(data_dir, t, init, id);
        assert(listing[n] == listing.last());
        if exists|i: int| 0 <= i < init.len() && (#[trigger] init[i]).0 == id {
            let i = choose|i: int| 0 <= i < init.len() && (#[trigger] init[i]).0 == id;
            assert(listing[i].0 == id);
        }
        if exists|i: int| 0 <= i < listing.len() && (#[trigger] listing[i]).0 == id {
            let i = choose|i: int| 0 <= i < listing.len() && (#[trigger] listing[i]).0 == id;
            if i < n {
                assert(init[i].0 == id);
            }
        }
    }
}

/// The table follows its machines: one that is made is created, one that is started
/// runs, one that is stopped has ended, and one that is deleted is handed back and
/// not known any more.
pub proof fn law_table_follows_its_machines(
    made: &mut VmTable,
    up: &mut VmTable,
    down: &mut VmTable,
    gone: &mut VmTable,
    id: &str,
    rootfs_dir: &str,
    log_path: &str,
    cid: u32,
    pid: Option<u32>,
    tap: Option<String>,
    r: Option<VmInstance>,
)
    requires
        call_ensures(VmTable::create, (made, id, rootfs_dir, log_path, cid), ()),
        call_ensures(VmTable::start, (up, id, pid, tap), ()),
        call_ensures(VmTable::stop, (down, id), ()),
        call_ensures(VmTable::delete, (gone, id), r),
        up.deep_view().contains_key(id@),
        down.deep_view().contains_key(id@),
    ensures
        final(made).deep_view().contains_key(id@),
        final(made).deep_view()[id@].state == VmState::Created,
        final(made).deep_view()[id@].rootfs_dir == rootfs_dir@,
        final(made).deep_view()[id@].log_path == log_path@,
        final(made).deep_view()[id@].guest_cid == cid,
        final(made).deep_view()[id@].vmm_pid is None,
        final(up).deep_view()[id@].state == VmState::Running,
        final(up).deep_view()[id@].vmm_pid == pid,
        final(up).deep_view()[id@].tap_name == tap.deep_view(),
        final(down).deep_view()[id@].state == VmState::Stopped,
        final(down).deep_view()[id@].vmm_pid is None,
        r is Some <==> old(gone).deep_view().contains_key(id@),
        r matches Some(v) ==> v.deep_view() == old(gone).deep_view()[id@],
        !final(gone).deep_view().contains_key(id@),
{
}

/// The command and the environment of a bundle are those of its process; a bundle
/// without a readable configuration has neither.
pub proof fn law_bundle_is_read(
    data: Option<&str>,
    v: JsonV,
    p: JsonV,
    r: (Vec<String>, Vec<String>),
)
    requires
        call_ensures(parse_bundle_config, (data,), r),
    ensures
        (data matches Some(d) && json_in(encode_utf8(d@)) == Some(v)) && field(v, "process"@) == Some(
            p,
        ) ==> r.0.deep_view() == texts_in(field(p, "args"@)) && r.1.deep_view() == texts_in(
            field(p, "env"@),
        ),
        (data is None || json_in(encode_utf8(data->0@)) is None) ==> r.0.len() == 0 && r.1.len() == 0,
{
    assert(r.0.deep_view().len() == r.0.len());
    assert(r.1.deep_view().len() == r.1.len());
    if data is Some {
        assert(data.deep_view() == Some(data->0@));
    }
}

/// The environment of a guest begins with the standard one, with the machine's id as its
/// host name, and goes on with nothing but what was asked for.
pub proof fn law_guest_env_goes_on(id: &str, extra: Vec<String>, r: Vec<String>, i: int)
    requires
        call_ensures(guest_env, (id, &extra), r),
    ensures
        3 <= r.len() <= 3 + extra.len(),
        r[1]@ == "HOSTNAME="@ + id@,
        3 <= i < r.len() ==> extra.deep_view().contains(r[i]@),
{
    assert(r.deep_view().len() == r.len());
    assert(extra.deep_view().len() == extra.len());
    lemma_merged_env_goes_on(base_env(id@), extra.deep_view(), i);
    lemma_merged_env_goes_on(base_env(id@), extra.deep_view(), 1);
    assert(r.deep_view()[1] == r[1]@);
    if 3 <= i < r.len() {
        assert(r.deep_view()[i] == r[i]@);
    }
}

proof fn lemma_merged_env_goes_on(base: Seq<Seq<char>>, extra: Seq<Seq<char>>, i: int)
    ensures
        base.len() <= merged_env(base, extra).len() <= base.len() + extra.len(),
        0 <= i < base.len() ==> merged_env(base, extra)[i] == base[i],
        base.len() <= i < merged_env(base, extra).len() ==> extra.contains(
            merged_env(base, extra)[i],
        ),
    decreases extra.len(),
{
    if extra.len() > 0 {
        let t = extra.drop_last();
        lemma_merged_env_goes_on(base, t, i);
        let m = merged_env(base, t);
        if base.len() <= i < m.len() {
            let k = choose|k: int| 0 <= k < t.len() && t[k] == m[i];
            assert(extra[k] == m[i]);
        }
        assert(extra[extra.len() - 1] == extra.last());
    }
}

/// The files of two machines in one directory are apart where their ids are, for the
/// same kind of file.
pub proof fn law_machine_files_are_apart(
    data_dir: &str,
    a: &str,
    b: &str,
    suffix: &str,
    x: String,
    y: String,
)
    requires
        call_ensures(vm_path, (data_dir, a, suffix), x),
        call_ensures(vm_path, (data_dir, b, suffix), y),
        a@.len() > 0 && a@[0] != '/',
        b@.len() > 0 && b@[0] != '/',
        a@ != b@,
    ensures
        x@ != y@,
{
    let p = a@ + suffix@;
    let q = b@ + suffix@;
    if x@ == y@ {
        let d = data_dir@;
        assert(p[0] == a@[0] && q[0] == b@[0]);
        let n: int = if d.len() == 0 || d.last() == '/' {
            d.len() as int
        } else {
            d.len() as int + 1
        };
        reveal_strlit("/");
        crate::keys::law_paths_are_joined(d, p);
        crate::keys::law_paths_are_joined(d, q);
        assert(p.subrange(0, 1)[0] == p[0] && q.subrange(0, 1)[0] == q[0]);
        assert(x@.skip(n) =~= p);
        assert(y@.skip(n) =~= q);
        assert(p == q);
        assert(a@.len() == b@.len());
        assert(p.take(a@.len() as int) =~= a@);
        assert(q.take(b@.len() as int) =~= b@);
    }
}

} // verus!
