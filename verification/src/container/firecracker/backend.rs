//! The Firecracker backend: its files, how a VM is configured and booted, and
//! the exec channel.
use vstd::prelude::*;
use vstd::string::*;
use crate::collections::{lemma_filter_map_step, union_of};
#[allow(unused_imports)]
use crate::collections::lemma_filter_map_has;
use crate::constants::{DATA_DIR, DEFAULT_CPU_COUNT, DEFAULT_MEMORY_MB};
use crate::container::backend::{parse_pid, RuntimeBackend};
#[allow(unused_imports)]
use crate::container::backend::pid_in;
use crate::container::firecracker::api::{ApiRequest, FcApiClient};
#[allow(unused_imports)]
use crate::container::firecracker::api::{
    action_request,
    boot_source_request,
    drive_request,
    interface_request,
    machine_config_request,
    vsock_request,
    ApiRequestV,
};
use crate::container::firecracker::network::FcNetworkManager;
#[allow(unused_imports)]
use crate::container::firecracker::network::vm_address;
use crate::container::firecracker::rootfs::FcRootfsMode;
use crate::container::state::ContainerStateInfo;
#[allow(unused_imports)]
use crate::container::state::ContainerStateInfoV;
use crate::container::vm::{command_or_shell, not_running, vm_path, VmState, VmTable};
#[allow(unused_imports)]
use crate::container::vm::{
    fresh_vm,
    guest_args,
    law_rediscovery_keeps_known,
    law_rediscovery_takes_up,
    vm_file,
    vm_report,
    vm_started,
    vm_state_text,
    vm_stopped,
    with_recovered,
    VmInstanceV,
};
#[allow(unused_imports)]
use crate::json::is_plain;
use crate::keys::join_path;
#[allow(unused_imports)]
use crate::keys::path_join;
use crate::numbers::u64_to_string;
#[allow(unused_imports)]
use crate::numbers::decimal;
use crate::split::{join, lines, trim};
#[allow(unused_imports)]
use crate::split::{joined, lines_of, trimmed};
use crate::text::{cat, cat3, ends_with, starts_with, str_eq, trim_end_matches};
#[allow(unused_imports)]
use crate::text::{has_prefix, has_suffix, without_trailing};
use crate::container::vm::{next_wait, WaitStep};
#[allow(unused_imports)]
use crate::container::vm::wait_step;

verus! {

/// VPC boot parameters passed through to the guest kernel command line.
#[derive(Debug)]
pub struct VpcBootParams {
    /// Address inside the guest.
    pub guest_ipv4: String,
    /// Address in the mesh.
    pub ghost_ipv6: String,
    /// Number of the VPC.
    pub vpc_id: u16,
    /// Range of the VPC.
    pub vpc_cidr: String,
    /// Hardware address of the gateway.
    pub gw_mac: String,
}

/// The contents of a [`VpcBootParams`].
#[verifier::ext_equal]
pub struct VpcBootParamsV {
    pub guest_ipv4: Seq<char>,
    pub ghost_ipv6: Seq<char>,
    pub vpc_id: u16,
    pub vpc_cidr: Seq<char>,
    pub gw_mac: Seq<char>,
}

impl DeepView for VpcBootParams {
    type V = VpcBootParamsV;

    open spec fn deep_view(&self) -> VpcBootParamsV {
        VpcBootParamsV {
            guest_ipv4: self.guest_ipv4@,
            ghost_ipv6: self.ghost_ipv6@,
            vpc_id: self.vpc_id,
            vpc_cidr: self.vpc_cidr@,
            gw_mac: self.gw_mac@,
        }
    }
}

/// The context id of the first guest.
pub const FC_GUEST_CID: u32 = 3;

/// Firecracker microVM backend.
pub struct FirecrackerBackend {
    /// Directory for VM runtime data.
    pub data_dir: String,
    /// Path to the guest Linux kernel.
    pub kernel_path: String,
    /// Path to the initrd image.
    pub initrd_path: Option<String>,
    /// Path to the firecracker binary.
    pub firecracker_bin: String,
    /// Path to the jailer binary.
    pub jailer_bin: Option<String>,
    /// Known VMs.
    pub instances: VmTable,
    /// The context id of the next guest.
    pub next_cid: u32,
    /// Version string.
    pub version_string: String,
}

/// Whether two backends are set up alike: they may differ in the VMs they know
/// and in the next context id alone.
pub open spec fn same_setup(a: FirecrackerBackend, b: FirecrackerBackend) -> bool {
    &&& a.data_dir@ == b.data_dir@
    &&& a.kernel_path@ == b.kernel_path@
    &&& a.initrd_path.deep_view() == b.initrd_path.deep_view()
    &&& a.firecracker_bin@ == b.firecracker_bin@
    &&& a.jailer_bin.deep_view() == b.jailer_bin.deep_view()
    &&& a.version_string@ == b.version_string@
}

/// Whether the context ids in a table are in order, with the next one to hand
/// out: each that is known was handed out before, and no two VMs share one.
pub open spec fn unique_cids(t: Map<Seq<char>, VmInstanceV>, next: u32) -> bool {
    &&& forall|k: Seq<char>| #[trigger]
        t.contains_key(k) ==> t[k].guest_cid == 0 || FC_GUEST_CID <= t[k].guest_cid < next
    &&& forall|j: Seq<char>, k: Seq<char>|
        #![trigger t.contains_key(j), t.contains_key(k)]
        t.contains_key(j) && t.contains_key(k) && j != k && t[j].guest_cid != 0 ==> t[j].guest_cid
            != t[k].guest_cid
    &&& FC_GUEST_CID <= next
}

/// Entering VMs that were found running keeps the context ids in order.
proof fn lemma_recovered_cids(
    data_dir: Seq<char>,
    t: Map<Seq<char>, VmInstanceV>,
    listing: Seq<(Seq<char>, Option<u32>)>,
    next: u32,
)
    requires
        unique_cids(t, next),
    ensures
        unique_cids(with_recovered(data_dir, t, listing), next),
    decreases listing.len(),
{
    if listing.len() > 0 {
        lemma_recovered_cids(data_dir, t, listing.drop_last(), next);
    }
}

impl FirecrackerBackend {
    /// Whether no two VMs share a context id, now or after the next is created.
    pub open spec fn well_formed(self) -> bool {
        unique_cids(self.instances.deep_view(), self.next_cid)
    }
}

impl RuntimeBackend for FirecrackerBackend {
    fn name(&self) -> (r: String)
        ensures
            r@ == "vm"@,
    {
        "vm".to_owned()
    }

    fn version(&self) -> (r: String)
        ensures
            r@ == self.version_string@,
    {
        self.version_string.clone()
    }
}

/// The network part of the kernel command line: the parameters of the VPC, else
/// a fixed address where there is a network device, else nothing.
pub open spec fn network_args(vpc: Option<VpcBootParamsV>, tap: bool, cid: u32) -> Seq<char> {
    match vpc {
        Some(v) => " k3rs.ipv4="@ + v.guest_ipv4 + " k3rs.ipv6="@ + v.ghost_ipv6 + " k3rs.vpc_id="@
            + decimal(v.vpc_id as nat) + " k3rs.vpc_cidr="@ + v.vpc_cidr + " k3rs.gw_mac="@
            + v.gw_mac,
        None => if tap {
            " ip="@ + vm_address(cid, ".2"@) + "::"@ + vm_address(cid, ".1"@)
                + ":255.255.255.252::eth0:off"@
        } else {
            Seq::empty()
        },
    }
}

/// The kernel command line.
pub open spec fn kernel_args(vpc: Option<VpcBootParamsV>, tap: bool, cid: u32) -> Seq<char> {
    "console=ttyS0 reboot=k panic=1 pci=off root=/dev/vda rw init=/sbin/k3rs-init"@ + network_args(
        vpc,
        tap,
        cid,
    )
}

/// The requests that configure and boot a VM from an ext4 image, in order.
pub open spec fn boot_sequence(
    kernel: Seq<char>,
    initrd: Option<Seq<char>>,
    image: Seq<char>,
    vsock: Seq<char>,
    cid: u32,
    tap: Option<Seq<char>>,
    vpc: Option<VpcBootParamsV>,
) -> Seq<ApiRequestV> {
    let base = seq![
        machine_config_request(DEFAULT_CPU_COUNT, DEFAULT_MEMORY_MB),
        boot_source_request(kernel, kernel_args(vpc, tap is Some, cid), initrd),
        drive_request("rootfs"@, image, true, false),
        vsock_request(cid, vsock),
    ];
    match tap {
        Some(t) => base.push(interface_request("eth0"@, t)).push(
            action_request("InstanceStart"@),
        ),
        None => base.push(action_request("InstanceStart"@)),
    }
}

/// How a VM is configured and booted.
pub struct BootPlan {
    /// The requests to send, in order.
    pub requests: Vec<ApiRequest>,
    /// What is said after the last of them, where the VM cannot be booted.
    pub refusal: Option<String>,
}

/// The id of the VM that a PID file belongs to, by the file's name.
pub open spec fn pid_file_vm(name: Seq<char>) -> Option<Seq<char>> {
    if has_suffix(name, ".pid"@) {
        Some(without_trailing(name, ".pid"@))
    } else {
        None
    }
}

/// A file in the data directory, with the PID in it, if any, and whether that
/// process lives.
#[derive(Debug)]
pub struct PidEntry {
    /// The name of the file.
    pub name: String,
    /// The PID in it.
    pub pid: Option<u32>,
    /// Whether the process lives.
    pub alive: bool,
}

/// The contents of a [`PidEntry`].
pub struct PidEntryV {
    pub name: Seq<char>,
    pub pid: Option<u32>,
    pub alive: bool,
}

impl DeepView for PidEntry {
    type V = PidEntryV;

    open spec fn deep_view(&self) -> PidEntryV {
        PidEntryV { name: self.name@, pid: self.pid, alive: self.alive }
    }
}

/// The VM that a file tells of: it is a PID file whose process lives.
pub open spec fn alive_rule() -> spec_fn(PidEntryV) -> Option<(Seq<char>, Option<u32>)> {
    |e: PidEntryV|
        match pid_file_vm(e.name) {
            Some(id) => if e.pid is Some && e.alive {
                Some((id, e.pid))
            } else {
                None
            },
            None => None,
        }
}

/// The file if it is a PID file that holds no PID or whose process is gone.
pub open spec fn stale_rule() -> spec_fn(PidEntryV) -> Option<Seq<char>> {
    |e: PidEntryV|
        match pid_file_vm(e.name) {
            Some(_) => if e.pid is Some && e.alive {
                None
            } else {
                Some(e.name)
            },
            None => None,
        }
}

/// What a look at the PID files has found.
pub struct Restored {
    /// The VMs that run.
    pub discovered: Vec<String>,
    /// The files to remove.
    pub stale: Vec<String>,
}

/// What stopping a VM takes.
#[derive(Debug)]
pub struct StopActions {
    /// Whether to ask the guest to shut down first.
    pub ctrl_alt_del: bool,
    /// The process to end, if any.
    pub pid: Option<u32>,
    /// Whether to remove the network device.
    pub cleanup_tap: bool,
    /// The files to remove.
    pub files: Vec<String>,
}

/// What is left of a VM that was removed.
#[derive(Debug)]
pub struct Deleted {
    /// Its image.
    pub image_path: String,
    /// Its rootfs directory.
    pub rootfs_dir: String,
    /// Its log.
    pub log_path: String,
    /// Whether it had a jail.
    pub jailed: bool,
}

/// The bytes of a command for the exec channel, as text.
pub open spec fn exec_payload(command: Seq<Seq<char>>, tty: bool) -> Seq<char> {
    (if tty {
        "\x01"@
    } else {
        Seq::empty()
    }) + joined(command, "\0"@) + "\n"@
}

/// The last ten lines of a log from the last one on, or a notice where it is empty.
pub open spec fn log_tail(log: Seq<char>) -> Seq<char> {
    let all = lines_of(log);
    let n = if all.len() <= 10 {
        all.len() as int
    } else {
        10
    };
    let t = joined(Seq::new(n as nat, |i: int| all[all.len() - 1 - i]), "\n"@);
    if t.len() == 0 {
        "(empty)"@
    } else {
        t
    }
}

impl FirecrackerBackend {
    /// A backend for the VMs under a data directory, where KVM is there and a
    /// Firecracker binary was found. Without a kernel of its own it looks for
    /// the default one.
    pub fn new(
        data_dir: &str,
        kvm_available: bool,
        firecracker: Result<String, String>,
        jailer: Option<String>,
        kernel: Result<(String, Option<String>), String>,
        version: &str,
    ) -> (r: Result<Self, String>)
        ensures
            match r {
                Ok(b) => {
                    &&& kvm_available
                    &&& firecracker is Ok
                    &&& b.data_dir@ == path_join(data_dir@, "vms"@)
                    &&& b.kernel_path@ == match kernel {
                        Ok(k) => k.0@,
                        Err(_) => DATA_DIR@ + "/vmlinux"@,
                    }
                    &&& b.initrd_path.deep_view() == match kernel {
                        Ok(k) => k.1.deep_view(),
                        Err(_) => None,
                    }
                    &&& b.firecracker_bin@ == firecracker->Ok_0@
                    &&& b.jailer_bin.deep_view() == jailer.deep_view()
                    &&& b.instances.deep_view() == Map::<Seq<char>, VmInstanceV>::empty()
                    &&& b.next_cid == FC_GUEST_CID
                    &&& b.well_formed()
                    &&& b.version_string@ == "firecracker-"@ + version@
                },
                Err(e) => if !kvm_available {
                    e@
                        == "KVM not available — /dev/kvm missing or not accessible. Firecracker requires Linux with KVM support."@
                } else {
                    firecracker is Err && e@ == firecracker->Err_0@
                },
            },
    {
        if !kvm_available {
            return Err(
                "KVM not available — /dev/kvm missing or not accessible. Firecracker requires Linux with KVM support.".to_owned(),
            );
        }
        match firecracker {
            Err(e) => Err(e),
            Ok(bin) => {
                let (kernel_path, initrd_path): (String, Option<String>) = match kernel {
                    Ok(k) => k,
                    Err(_) => (cat(DATA_DIR, "/vmlinux"), None),
                };
                Ok(
                    FirecrackerBackend {
                        data_dir: join_path(data_dir, "vms"),
                        kernel_path,
                        initrd_path,
                        firecracker_bin: bin,
                        jailer_bin: jailer,
                        instances: VmTable::new(),
                        next_cid: FC_GUEST_CID,
                        version_string: cat("firecracker-", version),
                    },
                )
            },
        }
    }

    /// The API socket of a VM.
    pub fn api_socket_path(&self, id: &str) -> (r: String)
        ensures
            r@ == vm_file(self.data_dir@, id@, ".sock"@),
    {
        vm_path(self.data_dir.as_str(), id, ".sock")
    }

    /// The vsock socket of a VM.
    pub fn vsock_uds_path(&self, id: &str) -> (r: String)
        ensures
            r@ == vm_file(self.data_dir@, id@, "-vsock.sock"@),
    {
        vm_path(self.data_dir.as_str(), id, "-vsock.sock")
    }

    /// The log of a VM.
    pub fn log_path(&self, id: &str) -> (r: String)
        ensures
            r@ == vm_file(self.data_dir@, id@, ".log"@),
    {
        vm_path(self.data_dir.as_str(), id, ".log")
    }

    /// The rootfs directory of a VM.
    pub fn rootfs_dir(&self, id: &str) -> (r: String)
        ensures
            r@ == vm_file(self.data_dir@, id@, "-rootfs"@),
    {
        vm_path(self.data_dir.as_str(), id, "-rootfs")
    }

    /// The ext4 image of a VM.
    pub fn rootfs_img_path(&self, id: &str) -> (r: String)
        ensures
            r@ == vm_file(self.data_dir@, id@, "-rootfs.ext4"@),
    {
        vm_path(self.data_dir.as_str(), id, "-rootfs.ext4")
    }

    /// The PID file of a VM.
    pub fn pid_file_path(&self, id: &str) -> (r: String)
        ensures
            r@ == vm_file(self.data_dir@, id@, ".pid"@),
    {
        vm_path(self.data_dir.as_str(), id, ".pid")
    }

    /// The files and directories to remove, besides what an instance names,
    /// when a VM is deleted: the first is a directory.
    pub fn leftovers(&self, id: &str) -> (r: Vec<String>)
        ensures
            r.deep_view() == seq![
                vm_file(self.data_dir@, id@, "-rootfs"@),
                vm_file(self.data_dir@, id@, "-rootfs.ext4"@),
                vm_file(self.data_dir@, id@, ".log"@),
                vm_file(self.data_dir@, id@, ".pid"@),
                vm_file(self.data_dir@, id@, ".sock"@),
                vm_file(self.data_dir@, id@, "-vsock.sock"@),
            ],
    {
        let mut out: Vec<String> = Vec::new();
        out.push(self.rootfs_dir(id));
        out.push(self.rootfs_img_path(id));
        out.push(self.log_path(id));
        out.push(self.pid_file_path(id));
        out.push(self.api_socket_path(id));
        out.push(self.vsock_uds_path(id));
        assert(out.deep_view() =~= seq![
            vm_file(self.data_dir@, id@, "-rootfs"@),
            vm_file(self.data_dir@, id@, "-rootfs.ext4"@),
            vm_file(self.data_dir@, id@, ".log"@),
            vm_file(self.data_dir@, id@, ".pid"@),
            vm_file(self.data_dir@, id@, ".sock"@),
            vm_file(self.data_dir@, id@, "-vsock.sock"@),
        ]);
        out
    }

    /// Hands out the next context id.
    pub fn allocate_cid(&mut self) -> (r: u32)
        requires
            old(self).next_cid < u32::MAX,
        ensures
            r == old(self).next_cid,
            final(self).next_cid == old(self).next_cid + 1,
            final(self).instances.deep_view() == old(self).instances.deep_view(),
            same_setup(*final(self), *old(self)),
            old(self).well_formed() ==> final(self).well_formed(),
    {
        let current: u32 = self.next_cid;
        self.next_cid = current + 1;
        current
    }

    /// The kernel command line.
    pub fn boot_args(vpc: Option<&VpcBootParams>, tap: bool, guest_cid: u32) -> (r: String)
        ensures
            r@ == kernel_args(vpc.deep_view(), tap, guest_cid),
    {
        let mut s: String =
            "console=ttyS0 reboot=k panic=1 pci=off root=/dev/vda rw init=/sbin/k3rs-init".to_owned();
        match vpc {
            Some(v) => {
                let mut t: String = cat(" k3rs.ipv4=", v.guest_ipv4.as_str());
                t.append(" k3rs.ipv6=");
                t.append(v.ghost_ipv6.as_str());
                t.append(" k3rs.vpc_id=");
                t.append(u64_to_string(v.vpc_id as u64).as_str());
                t.append(" k3rs.vpc_cidr=");
                t.append(v.vpc_cidr.as_str());
                t.append(" k3rs.gw_mac=");
                t.append(v.gw_mac.as_str());
                s.append(t.as_str());
            },
            None => {
                if tap {
                    let mut t: String = cat(
                        " ip=",
                        FcNetworkManager::guest_ip(guest_cid).as_str(),
                    );
                    t.append("::");
                    t.append(FcNetworkManager::host_ip(guest_cid).as_str());
                    t.append(":255.255.255.252::eth0:off");
                    s.append(t.as_str());
                } else {
                    assert(s@ + Seq::<char>::empty() =~= s@);
                }
            },
        }
        s
    }

    /// Plans how a VM is configured and booted. Only ext4 images can be booted:
    /// for anything else the first two requests are followed by a refusal.
    pub fn configure_and_boot(
        &self,
        id: &str,
        rootfs_mode: &FcRootfsMode,
        guest_cid: u32,
        tap_name: Option<&str>,
        vpc_params: Option<&VpcBootParams>,
    ) -> (r: BootPlan)
        ensures
            match rootfs_mode {
                FcRootfsMode::Ext4 { image_path } => {
                    &&& r.refusal is None
                    &&& r.requests.deep_view() == boot_sequence(
                        self.kernel_path@,
                        self.initrd_path.deep_view(),
                        image_path@,
                        vm_file(self.data_dir@, id@, "-vsock.sock"@),
                        guest_cid,
                        tap_name.deep_view(),
                        vpc_params.deep_view(),
                    )
                },
                FcRootfsMode::Virtiofsd { .. } => {
                    &&& r.refusal.deep_view() == Some(
                        "Firecracker only supports ext4 rootfs (virtio-blk)"@,
                    )
                    &&& r.requests.deep_view() == boot_sequence(
                        self.kernel_path@,
                        self.initrd_path.deep_view(),
                        Seq::empty(),
                        Seq::empty(),
                        guest_cid,
                        tap_name.deep_view(),
                        vpc_params.deep_view(),
                    ).take(2)
                },
            },
            forall|i: int|
                0 <= i < r.requests@.len() ==> is_plain(
                    (#[trigger] r.requests@[i]).body.deep_view(),
                    127,
                ),
    {
        let args: String = Self::boot_args(vpc_params, tap_name.is_some(), guest_cid);
        let initrd: Option<&str> = match &self.initrd_path {
            Some(p) => Some(p.as_str()),
            None => None,
        };
        let mut requests: Vec<ApiRequest> = Vec::new();
        requests.push(FcApiClient::set_machine_config(DEFAULT_CPU_COUNT, DEFAULT_MEMORY_MB));
        requests.push(
            FcApiClient::set_boot_source(self.kernel_path.as_str(), args.as_str(), initrd),
        );
        match rootfs_mode {
            FcRootfsMode::Ext4 { image_path } => {
                let vsock: String = self.vsock_uds_path(id);
                requests.push(FcApiClient::add_drive("rootfs", image_path.as_str(), true, false));
                requests.push(FcApiClient::set_vsock(guest_cid, vsock.as_str()));
                if let Some(tap) = tap_name {
                    requests.push(FcApiClient::add_network_interface("eth0", tap));
                }
                requests.push(FcApiClient::start_instance());
                assert(requests.deep_view() =~= boot_sequence(
                    self.kernel_path@,
                    self.initrd_path.deep_view(),
                    image_path@,
                    vm_file(self.data_dir@, id@, "-vsock.sock"@),
                    guest_cid,
                    tap_name.deep_view(),
                    vpc_params.deep_view(),
                ));
                BootPlan { requests, refusal: None }
            },
            FcRootfsMode::Virtiofsd { .. } => {
                assert(requests.deep_view() =~= boot_sequence(
                    self.kernel_path@,
                    self.initrd_path.deep_view(),
                    Seq::empty(),
                    Seq::empty(),
                    guest_cid,
                    tap_name.deep_view(),
                    vpc_params.deep_view(),
                ).take(2));
                BootPlan {
                    requests,
                    refusal: Some(
                        "Firecracker only supports ext4 rootfs (virtio-blk)".to_owned(),
                    ),
                }
            },
        }
    }

    /// What is said where a VM could not be booted, from whether the process
    /// still lives and what its log holds.
    pub fn boot_failure(pid: u32, alive: bool, error: &str, log: &str) -> (r: String)
        ensures
            r@ == (if alive {
                "Firecracker API error during boot configuration: "@
            } else {
                "Firecracker process (pid="@ + decimal(pid as nat)
                    + ") crashed during boot configuration: "@
            }) + error@ + "\n--- firecracker log (last 10 lines) ---\n"@ + log_tail(log@),
    {
        let all: Vec<String> = lines(log);
        let ghost ls = all.deep_view();
        let n: usize = if all.len() <= 10 {
            all.len()
        } else {
            10
        };
        let mut tail: Vec<String> = Vec::new();
        let mut i: usize = 0;
        while i < n
            invariant
                i <= n <= all@.len(),
                ls == all.deep_view(),
                tail@.len() == i,
                forall|j: int| 0 <= j < i ==> (#[trigger] tail@[j])@ == ls[ls.len() - 1 - j],
            decreases n - i,
        {
            assert(ls[ls.len() - 1 - i] == all@[all@.len() - 1 - i]@);
            tail.push(all[all.len() - 1 - i].clone());
            i = i + 1;
        }
        assert(tail.deep_view() =~= Seq::new(n as nat, |i: int| ls[ls.len() - 1 - i]));
        let text: String = join(&tail, "\n");
        let shown: String = if text.as_str().is_empty() {
            "(empty)".to_owned()
        } else {
            text
        };
        let mut s: String = if alive {
            "Firecracker API error during boot configuration: ".to_owned()
        } else {
            cat3(
                "Firecracker process (pid=",
                u64_to_string(pid as u64).as_str(),
                ") crashed during boot configuration: ",
            )
        };
        s.append(error);
        s.append("\n--- firecracker log (last 10 lines) ---\n");
        s.append(shown.as_str());
        s
    }

    /// The id of the VM that a file in the data directory is the PID file of.
    pub fn vm_of_pid_file(name: &str) -> (r: Option<String>)
        ensures
            r.deep_view() == pid_file_vm(name@),
    {
        proof {
            reveal_strlit(".pid");
        }
        if ends_with(name, ".pid") {
            Some(trim_end_matches(name, ".pid"))
        } else {
            None
        }
    }

    /// The PID in a PID file, where it could be read and holds one.
    pub fn pid_in_file(content: Option<&str>) -> (r: Option<u32>)
        ensures
            match r {
                Some(n) => content is Some && pid_in(content->0@) == Some(n as nat),
                None => content is None || pid_in(content->0@) is None,
            },
    {
        match content {
            Some(c) => parse_pid(c),
            None => None,
        }
    }

    /// Enters the VMs that the PID files tell of, unless they are known.
    pub fn restore_from_pid_files(&mut self, files: &Vec<PidEntry>) -> (r: Restored)
        ensures
            r.discovered.deep_view() == files.deep_view().filter_map(alive_rule()).map_values(
                |e: (Seq<char>, Option<u32>)| e.0,
            ),
            r.stale.deep_view() == files.deep_view().filter_map(stale_rule()),
            final(self).instances.deep_view() == with_recovered(
                old(self).data_dir@,
                old(self).instances.deep_view(),
                files.deep_view().filter_map(alive_rule()),
            ),
            same_setup(*final(self), *old(self)),
            old(self).well_formed() ==> final(self).well_formed(),
            final(self).next_cid == old(self).next_cid,
    {
        let ghost all = files.deep_view();
        let ghost first = |e: (Seq<char>, Option<u32>)| e.0;
        let mut discovered: Vec<String> = Vec::new();
        let mut stale: Vec<String> = Vec::new();
        let mut i: usize = 0;
        proof {
            assert(all.take(0) =~= Seq::<PidEntryV>::empty());
            reveal(Seq::filter_map);
            assert(discovered.deep_view() =~= all.take(0).filter_map(alive_rule()).map_values(first));
            assert(stale.deep_view() =~= all.take(0).filter_map(stale_rule()));
        }
        while i < files.len()
            invariant
                i <= files@.len(),
                all == files.deep_view(),
                first == |e: (Seq<char>, Option<u32>)| e.0,
                discovered.deep_view() == all.take(i as int).filter_map(alive_rule()).map_values(
                    first,
                ),
                stale.deep_view() == all.take(i as int).filter_map(stale_rule()),
                self.instances.deep_view() == with_recovered(
                    self.data_dir@,
                    old(self).instances.deep_view(),
                    all.take(i as int).filter_map(alive_rule()),
                ),
                same_setup(*self, *old(self)),
                self.next_cid == old(self).next_cid,
            decreases files@.len() - i,
        {
            let ghost found = all.take(i as int).filter_map(alive_rule());
            let ghost d = discovered.deep_view();
            let ghost s = stale.deep_view();
            proof {
                lemma_filter_map_step(all, alive_rule(), i as int);
                lemma_filter_map_step(all, stale_rule(), i as int);
                assert(all[i as int] == files@[i as int].deep_view());
            }
            let e: &PidEntry = &files[i];
            if let Some(id) = Self::vm_of_pid_file(e.name.as_str()) {
                let lives: bool = e.alive && e.pid.is_some();
                if lives {
                    let dir: String = self.data_dir.clone();
                    let _entered: bool = self.instances.recover(dir.as_str(), id.as_str(), e.pid);
                    let ghost idv = id@;
                    discovered.push(id);
                    proof {
                        let x = (idv, e.pid);
                        assert(alive_rule()(all[i as int]) == Some(x));
                        assert(found.push(x).drop_last() =~= found);
                        assert(discovered.deep_view() =~= d.push(idv));
                        assert(found.push(x).map_values(first) =~= found.map_values(first).push(
                            idv,
                        ));
                    }
                } else {
                    stale.push(e.name.clone());
                    assert(stale.deep_view() =~= s.push(e.name@));
                }
            }
            i = i + 1;
        }
        assert(all.take(i as int) =~= all);
        proof {
            if unique_cids(old(self).instances.deep_view(), old(self).next_cid) {
                lemma_recovered_cids(
                    old(self).data_dir@,
                    old(self).instances.deep_view(),
                    all.filter_map(alive_rule()),
                    old(self).next_cid,
                );
            }
        }
        Restored { discovered, stale }
    }

    /// Lists the VMs that run: those known to run and those that the PID files
    /// tell of, each once. Also names the PID files to remove.
    pub fn list(&mut self, files: &Vec<PidEntry>) -> (r: Restored)
        ensures
            r.discovered.deep_view().no_duplicates(),
            forall|k: Seq<char>| #[trigger]
                r.discovered.deep_view().contains(k) <==> (old(
                    self,
                ).instances.deep_view().contains_key(k) && old(self).instances.deep_view()[k].state
                    == VmState::Running) || files.deep_view().filter_map(alive_rule()).map_values(
                    |e: (Seq<char>, Option<u32>)| e.0,
                ).contains(k),
            r.stale.deep_view() == files.deep_view().filter_map(stale_rule()),
            final(self).instances.deep_view() == with_recovered(
                old(self).data_dir@,
                old(self).instances.deep_view(),
                files.deep_view().filter_map(alive_rule()),
            ),
            same_setup(*final(self), *old(self)),
            old(self).well_formed() ==> final(self).well_formed(),
            final(self).next_cid == old(self).next_cid,
    {
        let running: Vec<String> = self.instances.running();
        let found: Restored = self.restore_from_pid_files(files);
        Restored { discovered: union_of(running, &found.discovered), stale: found.stale }
    }

    /// Enters a VM whose rootfs was prepared, under a fresh context id.
    pub fn create(&mut self, id: &str, rootfs_dir: &str) -> (r: u32)
        requires
            old(self).next_cid < u32::MAX,
        ensures
            r == old(self).next_cid,
            final(self).next_cid == old(self).next_cid + 1,
            same_setup(*final(self), *old(self)),
            old(self).well_formed() ==> final(self).well_formed(),
            final(self).instances.deep_view() == old(self).instances.deep_view().insert(
                id@,
                fresh_vm(rootfs_dir@, vm_file(old(self).data_dir@, id@, ".log"@), r),
            ),
    {
        let cid: u32 = self.allocate_cid();
        let log: String = self.log_path(id);
        self.instances.create(id, rootfs_dir, log.as_str(), cid);
        cid
    }

    /// Checks that a VM can be started and gives its context id.
    pub fn prepare_start(&self, id: &str, kernel_present: bool) -> (r: Result<u32, String>)
        ensures
            match r {
                Ok(cid) => kernel_present && self.instances.deep_view().contains_key(id@) && cid
                    == self.instances.deep_view()[id@].guest_cid,
                Err(e) => if !kernel_present {
                    e@ == "Kernel missing at "@ + self.kernel_path@
                        + " — run `scripts/build-kernel.sh`"@
                } else {
                    !self.instances.deep_view().contains_key(id@) && e@ == "VM "@ + id@
                        + " not found — call create() first"@
                },
            },
    {
        if !kernel_present {
            return Err(
                cat3(
                    "Kernel missing at ",
                    self.kernel_path.as_str(),
                    " — run `scripts/build-kernel.sh`",
                ),
            );
        }
        match self.instances.get(id) {
            Some(v) => Ok(v.guest_cid),
            None => Err(cat3("VM ", id, " not found — call create() first")),
        }
    }

    /// The arguments of the Firecracker process of a VM.
    pub fn spawn_args(&self, id: &str) -> (r: Vec<String>)
        ensures
            r.deep_view() == seq!["--api-sock"@, vm_file(self.data_dir@, id@, ".sock"@)],
    {
        let mut out: Vec<String> = Vec::new();
        out.push("--api-sock".to_owned());
        out.push(self.api_socket_path(id));
        assert(out.deep_view() =~= seq!["--api-sock"@, vm_file(self.data_dir@, id@, ".sock"@)]);
        out
    }

    /// Decides, after so many waits, what follows from whether the API socket of
    /// a VM is there: it is waited for 100 times for 10 ms.
    pub fn socket_wait(waited: u32, present: bool) -> (r: WaitStep)
        ensures
            r == wait_step(waited, 100, 10, present),
    {
        next_wait(waited, 100, 10, present)
    }

    /// What is said where the API socket of a VM did not appear.
    pub fn socket_missing(&self, id: &str) -> (r: String)
        ensures
            r@ == "Firecracker API socket did not appear at "@ + vm_file(
                self.data_dir@,
                id@,
                ".sock"@,
            ),
    {
        cat("Firecracker API socket did not appear at ", self.api_socket_path(id).as_str())
    }

    /// Records that a VM has booted.
    pub fn started(&mut self, id: &str, pid: u32, tap_name: Option<String>)
        ensures
            final(self).instances.deep_view() == vm_started(
                old(self).instances.deep_view(),
                id@,
                Some(pid),
                tap_name.deep_view(),
            ),
            final(self).next_cid == old(self).next_cid,
            same_setup(*final(self), *old(self)),
            old(self).well_formed() ==> final(self).well_formed(),
    {
        self.instances.start(id, Some(pid), tap_name);
    }

    /// What stopping a VM takes, where it is known: the guest is asked if its
    /// socket is there, the process is ended if there is one, and the sockets
    /// and the PID file are removed.
    pub fn stop_vm(&self, id: &str, socket_present: bool) -> (r: Option<StopActions>)
        ensures
            match r {
                Some(a) => {
                    &&& self.instances.deep_view().contains_key(id@)
                    &&& a.ctrl_alt_del == socket_present
                    &&& a.pid == self.instances.deep_view()[id@].vmm_pid
                    &&& a.cleanup_tap == self.instances.deep_view()[id@].tap_name is Some
                    &&& a.files.deep_view() == seq![
                        vm_file(self.data_dir@, id@, ".sock"@),
                        vm_file(self.data_dir@, id@, "-vsock.sock"@),
                        vm_file(self.data_dir@, id@, ".pid"@),
                    ]
                },
                None => !self.instances.deep_view().contains_key(id@),
            },
    {
        match self.instances.get(id) {
            Some(v) => {
                let mut files: Vec<String> = Vec::new();
                files.push(self.api_socket_path(id));
                files.push(self.vsock_uds_path(id));
                files.push(self.pid_file_path(id));
                assert(files.deep_view() =~= seq![
                    vm_file(self.data_dir@, id@, ".sock"@),
                    vm_file(self.data_dir@, id@, "-vsock.sock"@),
                    vm_file(self.data_dir@, id@, ".pid"@),
                ]);
                Some(
                    StopActions {
                        ctrl_alt_del: socket_present,
                        pid: v.vmm_pid,
                        cleanup_tap: v.tap_name.is_some(),
                        files,
                    },
                )
            },
            None => None,
        }
    }

    /// Records that a VM has ended.
    pub fn stopped(&mut self, id: &str)
        ensures
            final(self).instances.deep_view() == vm_stopped(old(self).instances.deep_view(), id@),
            final(self).next_cid == old(self).next_cid,
            same_setup(*final(self), *old(self)),
            old(self).well_formed() ==> final(self).well_formed(),
    {
        self.instances.stop(id);
    }

    /// Forgets a VM and says what is left of it, where it was known.
    pub fn delete(&mut self, id: &str) -> (r: Option<Deleted>)
        ensures
            final(self).instances.deep_view() == old(self).instances.deep_view().remove(id@),
            match r {
                Some(d) => {
                    &&& old(self).instances.deep_view().contains_key(id@)
                    &&& d.image_path@ == vm_file(old(self).data_dir@, id@, "-rootfs.ext4"@)
                    &&& d.rootfs_dir@ == old(self).instances.deep_view()[id@].rootfs_dir
                    &&& d.log_path@ == old(self).instances.deep_view()[id@].log_path
                    &&& d.jailed == old(self).jailer_bin is Some
                },
                None => !old(self).instances.deep_view().contains_key(id@),
            },
            final(self).next_cid == old(self).next_cid,
            same_setup(*final(self), *old(self)),
            old(self).well_formed() ==> final(self).well_formed(),
    {
        match self.instances.delete(id) {
            Some(v) => Some(
                Deleted {
                    image_path: self.rootfs_img_path(id),
                    rootfs_dir: v.rootfs_dir,
                    log_path: v.log_path,
                    jailed: self.jailer_bin.is_some(),
                },
            ),
            None => None,
        }
    }

    /// The socket of the exec channel of a VM.
    pub fn vsock_of(&self, id: &str) -> (r: Result<String, String>)
        ensures
            match r {
                Ok(p) => self.instances.deep_view().contains_key(id@) && p@ == vm_file(
                    self.data_dir@,
                    id@,
                    "-vsock.sock"@,
                ),
                Err(e) => !self.instances.deep_view().contains_key(id@) && e@ == "VM "@ + id@
                    + " not found"@,
            },
    {
        match self.instances.get(id) {
            Some(_) => Ok(self.vsock_uds_path(id)),
            None => Err(cat3("VM ", id, " not found")),
        }
    }

    /// What is reported of a VM: what is known of it, else what its PID file
    /// tells.
    pub fn state(&self, id: &str, pid: Option<u32>, alive: bool) -> (r: Result<
        ContainerStateInfo,
        String,
    >)
        ensures
            match r {
                Ok(s) => if self.instances.deep_view().contains_key(id@) {
                    s.deep_view() == vm_report(id@, self.instances.deep_view()[id@])
                } else {
                    pid is Some && alive && s.deep_view() == (ContainerStateInfoV {
                        id: id@,
                        status: "running"@,
                        pid: pid->0,
                        bundle: vm_file(self.data_dir@, id@, "-rootfs"@),
                    })
                },
                Err(e) => !self.instances.deep_view().contains_key(id@) && !(pid is Some && alive)
                    && e@ == "VM "@ + id@ + " not found"@,
            },
    {
        match self.instances.report(id) {
            Some(s) => Ok(s),
            None => match pid {
                Some(p) => if alive {
                    Ok(self.recovered_report(id, p))
                } else {
                    Err(cat3("VM ", id, " not found"))
                },
                None => Err(cat3("VM ", id, " not found")),
            },
        }
    }

    /// Checks that a command can be run in a VM.
    pub fn exec_ready(&self, id: &str, pid: Option<u32>, alive: bool) -> (r: Result<(), String>)
        ensures
            match r {
                Ok(_) => if self.instances.deep_view().contains_key(id@) {
                    self.instances.deep_view()[id@].state == VmState::Running
                } else {
                    pid is Some && alive
                },
                Err(e) => if self.instances.deep_view().contains_key(id@) {
                    &&& self.instances.deep_view()[id@].state != VmState::Running
                    &&& e@ == "VM "@ + id@ + " is not running (status: "@ + vm_state_text(
                        self.instances.deep_view()[id@].state,
                    ) + ")"@
                } else {
                    !(pid is Some && alive) && e@ == "VM "@ + id@ + " not found"@
                },
            },
    {
        if self.instances.is_running(id) {
            return Ok(());
        }
        match self.state(id, pid, alive) {
            Ok(s) => {
                proof {
                    reveal_strlit("running");
                    reveal_strlit("created");
                    reveal_strlit("stopped");
                }
                if str_eq(s.status.as_str(), "running") {
                    assert("running"@.len() == 7);
                    assert("created"@[0] == 'c');
                    assert("stopped"@[0] == 's');
                    assert("running"@[0] == 'r');
                    Ok(())
                } else {
                    Err(not_running(id, s.status.as_str()))
                }
            },
            Err(e) => Err(e),
        }
    }

    /// What is reported of a VM that only its PID file tells of.
    pub fn recovered_report(&self, id: &str, pid: u32) -> (r: ContainerStateInfo)
        ensures
            r.deep_view() == (ContainerStateInfoV {
                id: id@,
                status: "running"@,
                pid,
                bundle: vm_file(self.data_dir@, id@, "-rootfs"@),
            }),
    {
        ContainerStateInfo {
            id: id.to_owned(),
            status: "running".to_owned(),
            pid,
            bundle: self.rootfs_dir(id),
        }
    }

    /// The request that opens a connection to a port of the guest.
    pub fn connect_request(port: u32) -> (r: String)
        ensures
            r@ == "CONNECT "@ + decimal(port as nat) + "\n"@,
    {
        cat3("CONNECT ", u64_to_string(port as u64).as_str(), "\n")
    }

    /// Whether the guest has accepted a connection; what is said where not.
    pub fn connect_result(port: u32, response: &str) -> (r: Result<(), String>)
        ensures
            r is Ok <==> has_prefix(response@, "OK "@),
            match r {
                Ok(_) => true,
                Err(e) => e@ == "vsock CONNECT to port "@ + decimal(port as nat) + " failed: "@
                    + trimmed(response@),
            },
    {
        if starts_with(response, "OK ") {
            Ok(())
        } else {
            let mut s: String = cat3(
                "vsock CONNECT to port ",
                u64_to_string(port as u64).as_str(),
                " failed: ",
            );
            s.append(trim(response).as_str());
            Err(s)
        }
    }

    /// The text of a one-shot command for the exec channel.
    pub fn exec_request(command: &Vec<String>) -> (r: String)
        ensures
            r@ == exec_payload(command.deep_view(), false),
    {
        let mut s: String = join(command, "\0");
        assert(Seq::<char>::empty() + s@ =~= s@);
        s.append("\n");
        s
    }

    /// The text of an interactive command for the exec channel.
    pub fn spawn_exec_request(command: &Vec<String>, tty: bool) -> (r: String)
        ensures
            r@ == exec_payload(guest_args(command.deep_view()), tty),
    {
        let args: Vec<String> = command_or_shell(command);
        let mut s: String = if tty {
            "\x01".to_owned()
        } else {
            String::new()
        };
        s.append(join(&args, "\0").as_str());
        s.append("\n");
        s
    }
}

/// The VM is started by the last request, after everything has been configured.
pub proof fn law_boot_ends_with_start(
    kernel: Seq<char>,
    initrd: Option<Seq<char>>,
    image: Seq<char>,
    vsock: Seq<char>,
    cid: u32,
    tap: Option<Seq<char>>,
    vpc: Option<VpcBootParamsV>,
)
    ensures
        boot_sequence(kernel, initrd, image, vsock, cid, tap, vpc).last() == action_request(
            "InstanceStart"@,
        ),
        boot_sequence(kernel, initrd, image, vsock, cid, tap, vpc).len() == if tap is Some {
            6int
        } else {
            5int
        },
{
}

/// The kernel is told where its root is and what to start; a machine in a VPC is told
/// its addresses and its network, one with only an interface its own address and the
/// host's, and one without an interface nothing more.
pub proof fn law_kernel_is_told_its_network(
    vpc: Option<&VpcBootParams>,
    tap: bool,
    cid: u32,
    guest: String,
    host: String,
    r: String,
)
    requires
        call_ensures(FirecrackerBackend::boot_args, (vpc, tap, cid), r),
        call_ensures(FcNetworkManager::guest_ip, (cid,), guest),
        call_ensures(FcNetworkManager::host_ip, (cid,), host),
    ensures
        ({
            let base =
                "console=ttyS0 reboot=k panic=1 pci=off root=/dev/vda rw init=/sbin/k3rs-init"@;
            &&& vpc is None && !tap ==> r@ == base
            &&& vpc is None && tap ==> r@ == base + (" ip="@ + guest@ + "::"@ + host@
                + ":255.255.255.252::eth0:off"@)
            &&& vpc matches Some(v) ==> r@ == base + (" k3rs.ipv4="@ + v.guest_ipv4@
                + " k3rs.ipv6="@ + v.ghost_ipv6@ + " k3rs.vpc_id="@ + decimal(v.vpc_id as nat)
                + " k3rs.vpc_cidr="@ + v.vpc_cidr@ + " k3rs.gw_mac="@ + v.gw_mac@)
        }),
{
    let base = "console=ttyS0 reboot=k panic=1 pci=off root=/dev/vda rw init=/sbin/k3rs-init"@;
    assert(base + Seq::<char>::empty() =~= base);
}

/// A machine is configured before it is started: first its processors and memory,
/// then its kernel, its root from the image, its socket under its own id, and its
/// interface where it has one. A root that is shared is refused before it is reached.
pub proof fn law_machine_is_configured_first(
    b: FirecrackerBackend,
    id: &str,
    mode: FcRootfsMode,
    cid: u32,
    tap: Option<&str>,
    vpc: Option<&VpcBootParams>,
    args: String,
    r: BootPlan,
)
    requires
        call_ensures(FirecrackerBackend::configure_and_boot, (&b, id, &mode, cid, tap, vpc), r),
        call_ensures(FirecrackerBackend::boot_args, (vpc, tap is Some, cid), args),
    ensures
        ({
            let q = r.requests.deep_view();
            &&& q.len() >= 2
            &&& q[0] == machine_config_request(DEFAULT_CPU_COUNT, DEFAULT_MEMORY_MB)
            &&& q[1] == boot_source_request(
                b.kernel_path@,
                args@,
                b.initrd_path.deep_view(),
            )
            &&& mode is Virtiofsd ==> r.refusal is Some && q.len() == 2
            &&& mode matches FcRootfsMode::Ext4 { image_path } ==> {
                &&& r.refusal is None
                &&& q[2] == drive_request("rootfs"@, image_path@, true, false)
                &&& q[3] == vsock_request(
                    cid,
                    path_join(b.data_dir@, id@ + "-vsock.sock"@),
                )
                &&& q.last() == action_request("InstanceStart"@)
                &&& tap matches Some(t) ==> q.len() == 6 && q[4] == interface_request(
                    "eth0"@,
                    t@,
                )
                &&& tap is None ==> q.len() == 5
            }
        }),
{
}

/// New machines get new guest numbers, one after the other, and start with nothing
/// but their root and their log.
pub proof fn law_machines_get_new_numbers(
    b: &mut FirecrackerBackend,
    id: &str,
    rootfs_dir: &str,
    r: u32,
    other: Seq<char>,
)
    requires
        call_ensures(FirecrackerBackend::create, (b, id, rootfs_dir), r),
        b.well_formed(),
        b.next_cid < u32::MAX,
        other != id@,
    ensures
        final(b).well_formed(),
        final(b).instances.deep_view().contains_key(id@),
        final(b).instances.deep_view()[id@].guest_cid == r,
        final(b).instances.deep_view()[id@].state == VmState::Created,
        final(b).instances.deep_view()[id@].vmm_pid is None,
        final(b).instances.deep_view()[id@].rootfs_dir == rootfs_dir@,
        final(b).instances.deep_view()[id@].log_path == path_join(old(b).data_dir@, id@ + ".log"@),
        r >= 3,
        final(b).next_cid == r + 1,
        final(b).instances.deep_view().contains_key(other) == old(b).instances.deep_view().contains_key(other),
        old(b).instances.deep_view().contains_key(other) ==> final(b).instances.deep_view()[other] == old(b).instances.deep_view()[other] && final(b).instances.deep_view()[other].guest_cid != r,
{
}

/// A machine that was started runs under its process, one that was stopped has none,
/// and one that was deleted is not known any more; none of this touches another
/// machine or gives out a number.
pub proof fn law_machines_change_alone(
    up: &mut FirecrackerBackend,
    down: &mut FirecrackerBackend,
    gone: &mut FirecrackerBackend,
    id: &str,
    pid: u32,
    tap: Option<String>,
    d: Option<Deleted>,
    other: Seq<char>,
)
    requires
        call_ensures(FirecrackerBackend::started, (up, id, pid, tap), ()),
        call_ensures(FirecrackerBackend::stopped, (down, id), ()),
        call_ensures(FirecrackerBackend::delete, (gone, id), d),
        up.instances.deep_view().contains_key(id@),
        down.instances.deep_view().contains_key(id@),
        other != id@,
    ensures
        final(up).instances.deep_view()[id@].state == VmState::Running,
        final(up).instances.deep_view()[id@].vmm_pid == Some(pid),
        final(up).instances.deep_view()[id@].tap_name == tap.deep_view(),
        final(up).instances.deep_view()[id@].guest_cid == old(up).instances.deep_view()[id@].guest_cid,
        final(down).instances.deep_view()[id@].state == VmState::Stopped,
        final(down).instances.deep_view()[id@].vmm_pid is None,
        !final(gone).instances.deep_view().contains_key(id@),
        d is Some <==> old(gone).instances.deep_view().contains_key(id@),
        d matches Some(x) ==> x.rootfs_dir@ == old(gone).instances.deep_view()[id@].rootfs_dir
            && x.log_path@ == old(gone).instances.deep_view()[id@].log_path && x.image_path@
            == path_join(old(gone).data_dir@, id@ + "-rootfs.ext4"@) && (x.jailed <==> old(gone).jailer_bin is Some),
        old(up).instances.deep_view().contains_key(other) ==> final(up).instances.deep_view()[other] == old(up).instances.deep_view()[other],
        old(down).instances.deep_view().contains_key(other) ==> final(down).instances.deep_view()[other] == old(down).instances.deep_view()[other],
        old(gone).instances.deep_view().contains_key(other) ==> final(gone).instances.deep_view()[other] == old(gone).instances.deep_view()[other],
        final(up).next_cid == old(up).next_cid,
        final(down).next_cid == old(down).next_cid,
        final(gone).next_cid == old(gone).next_cid,
{
}

/// A machine is stopped where it is known: asked to shut down where its socket is
/// there, its process ended where it has one, its interface removed where it has
/// one, and its sockets and process file deleted.
pub proof fn law_stop_cleans_up(
    b: FirecrackerBackend,
    id: &str,
    socket_present: bool,
    r: Option<StopActions>,
)
    requires
        call_ensures(FirecrackerBackend::stop_vm, (&b, id, socket_present), r),
    ensures
        r is Some <==> b.instances.deep_view().contains_key(id@),
        r matches Some(a) ==> {
            let v = b.instances.deep_view()[id@];
            &&& a.ctrl_alt_del <==> socket_present
            &&& a.pid == v.vmm_pid
            &&& a.cleanup_tap <==> v.tap_name is Some
            &&& a.files.deep_view() == seq![
                path_join(b.data_dir@, id@ + ".sock"@),
                path_join(b.data_dir@, id@ + "-vsock.sock"@),
                path_join(b.data_dir@, id@ + ".pid"@),
            ]
        },
{
}

/// Machines are found again by their process files: one whose process lives is taken
/// up, and every other process file is stale. Machines that are known stay as they
/// are.
pub proof fn law_live_machines_are_found_again(
    b: &mut FirecrackerBackend,
    files: Vec<PidEntry>,
    r: Restored,
    i: int,
    id: Seq<char>,
)
    requires
        call_ensures(FirecrackerBackend::restore_from_pid_files, (b, &files), r),
        0 <= i < files.len(),
        files[i].name@ == id + ".pid"@,
        !has_suffix(id, ".pid"@),
    ensures
        files[i].pid is Some && files[i].alive ==> r.discovered.deep_view().contains(id) && final(b).instances.deep_view().contains_key(id),
        !(files[i].pid is Some && files[i].alive) ==> r.stale.deep_view().contains(files[i].name@),
        old(b).instances.deep_view().contains_key(id) ==> final(b).instances.deep_view()[id] == old(b).instances.deep_view()[id],
{
    let all = files.deep_view();
    let name = files[i].name@;
    assert(all[i] == files[i].deep_view());
    lemma_pid_file(id);
    let f = alive_rule();
    let live = all.filter_map(f);
    if files[i].pid is Some && files[i].alive {
        lemma_filter_map_has(all, f, i);
        let k = choose|k: int| 0 <= k < live.len() && live[k] == f(all[i])->0;
        let ids = live.map_values(|e: (Seq<char>, Option<u32>)| e.0);
        assert(ids[k] == id);
        assert(live[k].0 == id);
        law_rediscovery_takes_up(old(b).data_dir@, old(b).instances.deep_view(), live, id);
    } else {
        lemma_filter_map_has(all, stale_rule(), i);
        let stale = all.filter_map(stale_rule());
        let k = choose|k: int| 0 <= k < stale.len() && stale[k] == stale_rule()(all[i])->0;
        assert(stale[k] == name);
    }
    if old(b).instances.deep_view().contains_key(id) {
        law_rediscovery_keeps_known(old(b).data_dir@, old(b).instances.deep_view(), live, id);
    }
}

proof fn lemma_pid_file(id: Seq<char>)
    requires
        !has_suffix(id, ".pid"@),
    ensures
        pid_file_vm(id + ".pid"@) == Some(id),
{
    let p = ".pid"@;
    let name = id + p;
    reveal_strlit(".pid");
    assert(p.len() == 4);
    assert(name.subrange(name.len() - 4, name.len() as int) =~= p);
    assert(has_suffix(name, p));
    assert(name.take(name.len() - 4) =~= id);
    assert(without_trailing(id, p) == id);
}

/// Commands can be run in a known machine exactly while it runs, and in another
/// exactly where its process lives; the same is reported of it.
pub proof fn law_commands_need_a_live_machine(
    b: FirecrackerBackend,
    id: &str,
    pid: Option<u32>,
    alive: bool,
    r: Result<(), String>,
    s: Result<ContainerStateInfo, String>,
)
    requires
        call_ensures(FirecrackerBackend::exec_ready, (&b, id, pid, alive), r),
        call_ensures(FirecrackerBackend::state, (&b, id, pid, alive), s),
    ensures
        b.instances.deep_view().contains_key(id@) ==> (r is Ok <==> b.instances.deep_view()[id@].state
            == VmState::Running),
        !b.instances.deep_view().contains_key(id@) ==> (r is Ok <==> pid is Some && alive),
        s is Ok <==> b.instances.deep_view().contains_key(id@) || (pid is Some && alive),
        r is Ok ==> s is Ok && s->Ok_0.status@ == "running"@,
        !b.instances.deep_view().contains_key(id@) && s is Ok ==> Some(s->Ok_0.pid) == pid,
{
}

/// A machine is started exactly where the kernel is there and the machine is known,
/// under its guest number.
pub proof fn law_start_needs_kernel_and_machine(
    b: FirecrackerBackend,
    id: &str,
    kernel_present: bool,
    r: Result<u32, String>,
)
    requires
        call_ensures(FirecrackerBackend::prepare_start, (&b, id, kernel_present), r),
    ensures
        r is Ok <==> kernel_present && b.instances.deep_view().contains_key(id@),
        r matches Ok(cid) ==> cid == b.instances.deep_view()[id@].guest_cid,
{
}

/// The agent in a machine is sent the words of a command with a zero character
/// between them and a line end after them, behind a mark where a terminal is wanted;
/// without a command a shell.
pub proof fn law_commands_are_sent(
    command: Vec<String>,
    tty: bool,
    r: String,
    s: String,
    word: Seq<char>,
    next: Seq<char>,
)
    requires
        call_ensures(FirecrackerBackend::exec_request, (&command,), r),
        call_ensures(FirecrackerBackend::spawn_exec_request, (&command, tty), s),
    ensures
        command.deep_view() == seq![word] ==> r@ == word + "\n"@,
        command.deep_view() == seq![word, next] ==> r@ == word + "\0"@ + next + "\n"@,
        command.len() > 0 && !tty ==> s@ == r@,
        command.len() > 0 && tty ==> s@ == "\x01"@ + r@,
        command.len() == 0 && !tty ==> s@ == "/bin/sh"@ + "\n"@,
{
    reveal_with_fuel(joined, 3);
    let c = command.deep_view();
    assert(c.len() == command.len());
    let none = Seq::<char>::empty();
    assert(none + joined(c, "\0"@) =~= joined(c, "\0"@));
    assert("\x01"@ + joined(c, "\0"@) + "\n"@ =~= "\x01"@ + (joined(c, "\0"@) + "\n"@));
    if c == seq![word, next] {
        assert(c.drop_last() =~= seq![word]);
        assert(c.last() == next);
    }
    let sh = seq!["/bin/sh"@];
    assert(none + joined(sh, "\0"@) =~= "/bin/sh"@);
}

/// The agent is connected exactly where it answers with `OK` and a space.
pub proof fn law_agent_must_answer(port: u32, response: &str, q: String, r: Result<(), String>)
    requires
        call_ensures(FirecrackerBackend::connect_request, (port,), q),
        call_ensures(FirecrackerBackend::connect_result, (port, response), r),
    ensures
        q@ == "CONNECT "@ + decimal(port as nat) + "\n"@,
        r is Ok <==> response@.len() >= 3 && response@[0] == 'O' && response@[1] == 'K'
            && response@[2] == ' ',
{
    reveal_strlit("OK ");
    let p = "OK "@;
    assert(p.len() == 3 && p[0] == 'O' && p[1] == 'K' && p[2] == ' ');
    if response@.len() >= 3 {
        let h = response@.subrange(0, 3);
        assert(h[0] == response@[0] && h[1] == response@[1] && h[2] == response@[2]);
        if h[0] == 'O' && h[1] == 'K' && h[2] == ' ' {
            assert(h =~= p);
        }
    }
}

/// The backend needs virtualization and the program; it takes the kernel that was
/// found, or the standard one, and starts without machines.
pub proof fn law_backend_needs_virtualization(
    data_dir: &str,
    kvm: bool,
    firecracker: Result<String, String>,
    jailer: Option<String>,
    kernel: Result<(String, Option<String>), String>,
    version: &str,
    r: Result<FirecrackerBackend, String>,
)
    requires
        call_ensures(
            FirecrackerBackend::new,
            (data_dir, kvm, firecracker, jailer, kernel, version),
            r,
        ),
    ensures
        r is Ok <==> kvm && firecracker is Ok,
        r matches Ok(b) ==> {
            &&& b.well_formed()
            &&& b.firecracker_bin@ == firecracker->Ok_0@
            &&& b.data_dir@ == path_join(data_dir@, "vms"@)
            &&& kernel matches Ok(k) ==> b.kernel_path@ == k.0@ && b.initrd_path.deep_view()
                == k.1.deep_view()
            &&& kernel is Err ==> b.initrd_path is None
            &&& b.jailer_bin.deep_view() == jailer.deep_view()
            &&& forall|id: Seq<char>| !#[trigger] b.instances.deep_view().contains_key(id)
        },
{
}

/// A machine that does not boot is reported with the error and with the end of its log,
/// the newest line first and ten lines at most; whether it still runs is told apart.
pub proof fn law_boot_failure_shows_the_log(
    pid: u32,
    alive: bool,
    error: &str,
    log: &str,
    shown: Seq<Seq<char>>,
    r: String,
)
    requires
        call_ensures(FirecrackerBackend::boot_failure, (pid, alive, error, log), r),
        shown.len() <= 10,
        shown.len() <= lines_of(log@).len(),
        shown.len() == 10 || shown.len() == lines_of(log@).len(),
        forall|i: int|
            0 <= i < shown.len() ==> #[trigger] shown[i] == lines_of(log@)[lines_of(log@).len() - 1
                - i],
        joined(shown, "\n"@).len() > 0,
    ensures
        r@ == (if alive {
            "Firecracker API error during boot configuration: "@
        } else {
            "Firecracker process (pid="@ + decimal(pid as nat) + ") crashed during boot configuration: "@
        }) + error@ + "\n--- firecracker log (last 10 lines) ---\n"@ + joined(shown, "\n"@),
{
    let all = lines_of(log@);
    let n = if all.len() <= 10 {
        all.len() as int
    } else {
        10
    };
    assert(Seq::new(n as nat, |i: int| all[all.len() - 1 - i]) =~= shown);
}

} // verus!
