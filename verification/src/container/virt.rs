//! The macOS virtualization backend: the commands of its helper and what they answer.
use vstd::prelude::*;
use vstd::string::*;
use crate::collections::{lemma_filter_map_step, union_of};
#[allow(unused_imports)]
use crate::collections::lemma_filter_map_has;
#[allow(unused_imports)]
use crate::constants::{DEFAULT_CPU_COUNT, DEFAULT_MEMORY_MB};
use crate::container::backend::RuntimeBackend;
use crate::container::state::ContainerStateInfo;
#[allow(unused_imports)]
use crate::container::state::ContainerStateInfoV;
use crate::container::vm::{
    command_or_shell,
    not_running,
    pick_present,
    vm_path,
    VmConfig,
    VmState,
    VmTable,
};
#[allow(unused_imports)]
use crate::container::vm::{
    first_present,
    fresh_vm,
    guest_args,
    law_rediscovery_takes_up,
    vm_file,
    vm_report,
    vm_started,
    vm_state_text,
    vm_stopped,
    with_recovered,
    VmInstanceV,
};
use crate::keys::join_path;
#[allow(unused_imports)]
use crate::keys::path_join;
use crate::model::clone_strings;
use crate::numbers::{parse_u32, u64_to_string};
#[allow(unused_imports)]
use crate::numbers::{decimal, parse_unsigned};
use crate::split::{lines, split_whitespace, trim};
#[allow(unused_imports)]
use crate::split::{lines_of, trimmed, words};
use crate::text::{cat3, str_eq, strip_prefix};
#[allow(unused_imports)]
use crate::text::has_prefix;

verus! {

/// Apple Virtualization.framework backend.
pub struct VirtualizationBackend {
    /// Directory for VM runtime data.
    pub data_dir: String,
    /// Path to the guest Linux kernel.
    pub kernel_path: String,
    /// Path to the initrd image.
    pub initrd_path: Option<String>,
    /// Per-VM resource configuration.
    pub vm_config: VmConfig,
    /// Known VMs.
    pub instances: VmTable,
}

/// Whether two backends are set up alike: they may differ in the VMs they know
/// alone.
pub open spec fn same_setup(a: VirtualizationBackend, b: VirtualizationBackend) -> bool {
    &&& a.data_dir@ == b.data_dir@
    &&& a.kernel_path@ == b.kernel_path@
    &&& a.initrd_path.deep_view() == b.initrd_path.deep_view()
    &&& a.vm_config == b.vm_config
}

impl RuntimeBackend for VirtualizationBackend {
    fn name(&self) -> (r: String)
        ensures
            r@ == "vm"@,
    {
        "vm".to_owned()
    }

    fn version(&self) -> (r: String)
        ensures
            r@ == "macos-vz-2.0"@,
    {
        "macos-vz-2.0".to_owned()
    }
}

/// What is reported of a VM that only the helper knows.
pub open spec fn helper_report(data_dir: Seq<char>, id: Seq<char>, running: bool, pid: u32) -> ContainerStateInfoV {
    ContainerStateInfoV {
        id,
        status: if running {
            "running"@
        } else {
            "stopped"@
        },
        pid: if running {
            pid
        } else {
            0
        },
        bundle: vm_file(data_dir, id, "-rootfs"@),
    }
}

/// The ids in a listing of VMs.
pub open spec fn listed_ids(listing: Seq<(Seq<char>, Option<u32>)>) -> Seq<Seq<char>> {
    Seq::new(listing.len(), |i: int| listing[i].0)
}

/// The arguments that boot a VM.
pub open spec fn boot_args_of(
    kernel: Seq<char>,
    rootfs: Seq<char>,
    config: VmConfig,
    id: Seq<char>,
    log: Seq<char>,
    initrd: Option<Seq<char>>,
) -> Seq<Seq<char>> {
    let base = seq![
        "boot"@,
        "--kernel"@,
        kernel,
        "--rootfs"@,
        rootfs,
        "--cpus"@,
        decimal(config.cpu_count as nat),
        "--memory"@,
        decimal(config.memory_mb as nat),
        "--id"@,
        id,
        "--log"@,
        log,
        "--foreground"@,
    ];
    match initrd {
        Some(p) => base.push("--initrd"@).push(p),
        None => base,
    }
}

/// A line of the helper's listing that names a running VM: id, PID and state.
pub open spec fn ls_rule() -> spec_fn(Seq<char>) -> Option<(Seq<char>, Option<u32>)> {
    |line: Seq<char>|
        {
            let w = words(line);
            if w.len() >= 3 && w[2] == "running"@ {
                Some(
                    (
                        w[0],
                        match parse_unsigned(w[1], 0xffff_ffff) {
                            Some(p) => Some(p as u32),
                            None => None,
                        },
                    ),
                )
            } else {
                None
            }
        }
}

/// Whether the helper reports a VM as running, where it reports it at all: by
/// the first line that begins with `state=`.
pub open spec fn state_in(all: Seq<Seq<char>>) -> Option<bool>
    decreases all.len(),
{
    if all.len() == 0 {
        None
    } else if has_prefix(all[0], "state="@) {
        Some(trimmed(all[0].skip("state="@.len() as int)) == "running"@)
    } else {
        state_in(all.skip(1))
    }
}

/// The first PID in the output of a process search, or zero.
pub open spec fn pid_found(stdout: Seq<char>) -> nat {
    let all = lines_of(trimmed(stdout));
    if all.len() > 0 {
        match parse_unsigned(all[0], 0xffff_ffff) {
            Some(p) => p,
            None => 0,
        }
    } else {
        0
    }
}

/// How a VM is brought to an end.
#[derive(Debug, Clone, Copy, PartialEq, Eq, Structural)]
pub enum StopPlan {
    /// The helper has stopped it.
    Done,
    /// Its process is to be terminated, then killed.
    Kill(u32),
    /// There is nothing to signal.
    Nothing,
}

/// Reads the listing of the helper.
pub fn parse_ls(stdout: &str) -> (r: Vec<(String, Option<u32>)>)
    ensures
        r.deep_view() == lines_of(stdout@).filter_map(ls_rule()),
{
    let all: Vec<String> = lines(stdout);
    let ghost ls = all.deep_view();
    let mut out: Vec<(String, Option<u32>)> = Vec::new();
    let mut i: usize = 0;
    assert(ls.take(0) =~= Seq::<Seq<char>>::empty());
    assert(out.deep_view() =~= Seq::<(Seq<char>, Option<u32>)>::empty());
    while i < all.len()
        invariant
            i <= all@.len(),
            ls == all.deep_view(),
            out.deep_view() == ls.take(i as int).filter_map(ls_rule()),
        decreases all@.len() - i,
    {
        proof {
            lemma_filter_map_step(ls, ls_rule(), i as int);
            assert(ls[i as int] == all@[i as int]@);
        }
        let w: Vec<String> = split_whitespace(all[i].as_str());
        assert(w.deep_view().len() == w@.len());
        if w.len() >= 3 {
            assert(w.deep_view()[0] == w@[0]@ && w.deep_view()[1] == w@[1]@ && w.deep_view()[2]
                == w@[2]@);
            if str_eq(w[2].as_str(), "running") {
                let ghost before = out.deep_view();
                let e: (String, Option<u32>) = (w[0].clone(), parse_u32(w[1].as_str()));
                let ghost ev = e.deep_view();
                out.push(e);
                assert(out.deep_view() =~= before.push(ev));
                assert(ls_rule()(ls[i as int]) == Some(ev));
            }
        }
        i = i + 1;
    }
    assert(ls.take(i as int) =~= ls);
    out
}

/// Reads the answer of the helper to a state query.
pub fn parse_state(stdout: &str) -> (r: Option<bool>)
    ensures
        r == state_in(lines_of(stdout@)),
{
    let all: Vec<String> = lines(stdout);
    let ghost ls = all.deep_view();
    let mut i: usize = 0;
    assert(ls.skip(0) =~= ls);
    while i < all.len()
        invariant
            i <= all@.len(),
            ls == all.deep_view(),
            ls == lines_of(stdout@),
            state_in(ls) == state_in(ls.skip(i as int)),
        decreases all@.len() - i,
    {
        assert(ls.skip(i as int)[0] == all@[i as int]@);
        match strip_prefix(all[i].as_str(), "state=") {
            Some(rest) => {
                let t: String = trim(rest.as_str());
                return Some(str_eq(t.as_str(), "running"));
            },
            None => {},
        }
        assert(ls.skip(i as int).skip(1) =~= ls.skip(i + 1));
        i = i + 1;
    }
    None
}

/// Reads the first PID from the output of a process search.
pub fn parse_pgrep(stdout: &str) -> (r: u32)
    ensures
        r == pid_found(stdout@),
{
    let t: String = trim(stdout);
    let all: Vec<String> = lines(t.as_str());
    assert(all.deep_view().len() == all@.len());
    if all.len() > 0 {
        assert(all.deep_view()[0] == all@[0]@);
        match parse_u32(all[0].as_str()) {
            Some(p) => p,
            None => 0,
        }
    } else {
        0
    }
}

/// Where the helper may be, besides the search path.
pub fn vmm_candidates() -> (r: Vec<&'static str>)
    ensures
        r.deep_view() == seq![
            "./target/release/k3rs-vmm"@,
            "./target/debug/k3rs-vmm"@,
            "/var/lib/k3rs/bin/k3rs-vmm"@,
            "./k3rs-vmm"@,
        ],
{
    let v: Vec<&'static str> = vec![
        "./target/release/k3rs-vmm",
        "./target/debug/k3rs-vmm",
        "/var/lib/k3rs/bin/k3rs-vmm",
        "./k3rs-vmm",
    ];
    assert(v.deep_view() =~= seq![
        "./target/release/k3rs-vmm"@,
        "./target/debug/k3rs-vmm"@,
        "/var/lib/k3rs/bin/k3rs-vmm"@,
        "./k3rs-vmm"@,
    ]);
    v
}

/// Where the helper is: the first of its places that exists, unless the search
/// path has it.
pub open spec fn helper_path(success: bool, stdout: Seq<char>, present: Seq<bool>) -> Option<
    Seq<char>,
> {
    if success && trimmed(stdout).len() > 0 {
        Some(trimmed(stdout))
    } else {
        first_present(
            seq![
                "./target/release/k3rs-vmm"@,
                "./target/debug/k3rs-vmm"@,
                "/var/lib/k3rs/bin/k3rs-vmm"@,
                "./k3rs-vmm"@,
            ],
            present,
        )
    }
}

/// Finds the helper, from what `which` answers and from which of its places
/// exist.
pub fn which_vmm(success: bool, stdout: &str, present: &Vec<bool>) -> (r: Option<String>)
    ensures
        r.deep_view() == helper_path(success, stdout@, present@),
{
    if success {
        let path: String = trim(stdout);
        if !path.as_str().is_empty() {
            return Some(path);
        }
    }
    let places: Vec<&'static str> = vmm_candidates();
    let ghost all = places.deep_view();
    let mut owned: Vec<String> = Vec::new();
    let mut i: usize = 0;
    while i < places.len()
        invariant
            i <= places@.len(),
            all == places.deep_view(),
            owned@.len() == i,
            forall|j: int| 0 <= j < i ==> (#[trigger] owned@[j])@ == all[j],
        decreases places@.len() - i,
    {
        owned.push(places[i].to_owned());
        i = i + 1;
    }
    assert(owned.deep_view() =~= all);
    pick_present(&owned, present)
}

/// Decides how a VM is brought to an end, after the helper was asked or could
/// not be found.
pub fn stop_plan(helper_succeeded: bool, pid: Option<u32>) -> (r: StopPlan)
    ensures
        r == if helper_succeeded {
            StopPlan::Done
        } else {
            match pid {
                Some(p) => StopPlan::Kill(p),
                None => StopPlan::Nothing,
            }
        },
{
    if helper_succeeded {
        StopPlan::Done
    } else {
        match pid {
            Some(p) => StopPlan::Kill(p),
            None => StopPlan::Nothing,
        }
    }
}

impl VirtualizationBackend {
    /// The log path of a VM.
    pub fn log_path(&self, id: &str) -> (r: String)
        ensures
            r@ == vm_file(self.data_dir@, id@, ".log"@),
    {
        vm_path(self.data_dir.as_str(), id, ".log")
    }

    /// The rootfs directory of a VM.
    pub fn rootfs_dir(&self, id: &str) -> (r: String)
        ensures
            r@ == vm_file(self.data_dir@, id@, "-rootfs"@),
    {
        vm_path(self.data_dir.as_str(), id, "-rootfs")
    }

    /// The arguments that boot a VM.
    pub fn boot_args(&self, id: &str, rootfs_dir: &str) -> (r: Vec<String>)
        ensures
            r.deep_view() == boot_args_of(
                self.kernel_path@,
                rootfs_dir@,
                self.vm_config,
                id@,
                vm_file(self.data_dir@, id@, ".log"@),
                self.initrd_path.deep_view(),
            ),
    {
        let mut out: Vec<String> = Vec::new();
        out.push("boot".to_owned());
        out.push("--kernel".to_owned());
        out.push(self.kernel_path.clone());
        out.push("--rootfs".to_owned());
        out.push(rootfs_dir.to_owned());
        out.push("--cpus".to_owned());
        out.push(u64_to_string(self.vm_config.cpu_count as u64));
        out.push("--memory".to_owned());
        out.push(u64_to_string(self.vm_config.memory_mb));
        out.push("--id".to_owned());
        out.push(id.to_owned());
        out.push("--log".to_owned());
        out.push(self.log_path(id));
        out.push("--foreground".to_owned());
        if let Some(p) = &self.initrd_path {
            out.push("--initrd".to_owned());
            out.push(p.clone());
        }
        assert(out.deep_view() =~= boot_args_of(
            self.kernel_path@,
            rootfs_dir@,
            self.vm_config,
            id@,
            vm_file(self.data_dir@, id@, ".log"@),
            self.initrd_path.deep_view(),
        ));
        out
    }

    /// The arguments of a one-shot command in a VM.
    pub fn exec_args(id: &str, command: &Vec<String>) -> (r: Vec<String>)
        ensures
            r.deep_view() == seq!["exec"@, "--id"@, id@, "--"@] + command.deep_view(),
    {
        let mut out: Vec<String> = Vec::new();
        out.push("exec".to_owned());
        out.push("--id".to_owned());
        out.push(id.to_owned());
        out.push("--".to_owned());
        let mut rest: Vec<String> = clone_strings(command);
        out.append(&mut rest);
        assert(out.deep_view() =~= seq!["exec"@, "--id"@, id@, "--"@] + command.deep_view());
        out
    }

    /// The arguments of an interactive command in a VM.
    pub fn spawn_exec_args(id: &str, command: &Vec<String>, tty: bool) -> (r: Vec<String>)
        ensures
            r.deep_view() == (if tty {
                seq!["exec"@, "--id"@, id@, "--tty"@, "--"@]
            } else {
                seq!["exec"@, "--id"@, id@, "--"@]
            }) + guest_args(command.deep_view()),
    {
        let mut out: Vec<String> = Vec::new();
        out.push("exec".to_owned());
        out.push("--id".to_owned());
        out.push(id.to_owned());
        if tty {
            out.push("--tty".to_owned());
        }
        out.push("--".to_owned());
        let mut rest: Vec<String> = command_or_shell(command);
        let ghost a = out.deep_view();
        let ghost b = rest.deep_view();
        out.append(&mut rest);
        assert(out.deep_view() =~= a + b);
        assert(a =~= if tty {
            seq!["exec"@, "--id"@, id@, "--tty"@, "--"@]
        } else {
            seq!["exec"@, "--id"@, id@, "--"@]
        });
        out
    }

    /// What a one-shot command has written, or what is said where it failed.
    pub fn exec_result(success: bool, stdout: &str, stderr: &str) -> (r: Result<String, String>)
        ensures
            r is Ok <==> success,
            match r {
                Ok(out) => out@ == stdout@,
                Err(e) => e@ == "k3rs-vmm exec failed: "@ + trimmed(stdout@) + trimmed(stderr@),
            },
    {
        if success {
            Ok(stdout.to_owned())
        } else {
            let a: String = trim(stdout);
            let b: String = trim(stderr);
            Err(cat3("k3rs-vmm exec failed: ", a.as_str(), b.as_str()))
        }
    }

    /// What is reported of a VM that only the helper knows.
    pub fn external_report(&self, id: &str, running: bool, pid: u32) -> (r: ContainerStateInfo)
        ensures
            r.deep_view() == helper_report(self.data_dir@, id@, running, pid),
    {
        ContainerStateInfo {
            id: id.to_owned(),
            status: if running {
                "running".to_owned()
            } else {
                "stopped".to_owned()
            },
            pid: if running {
                pid
            } else {
                0
            },
            bundle: self.rootfs_dir(id),
        }
    }

    /// The backend for the VMs under a data directory, on macOS. Without a kernel
    /// of its own it looks for the default one.
    pub fn new(
        data_dir: &str,
        macos: bool,
        kernel: Result<(String, Option<String>), String>,
    ) -> (r: Result<Self, String>)
        ensures
            match r {
                Ok(b) => {
                    &&& macos
                    &&& b.data_dir@ == path_join(data_dir@, "vms"@)
                    &&& b.kernel_path@ == match kernel {
                        Ok(k) => k.0@,
                        Err(_) => "/var/lib/k3rs/vmlinux"@,
                    }
                    &&& b.initrd_path.deep_view() == match kernel {
                        Ok(k) => k.1.deep_view(),
                        Err(_) => None,
                    }
                    &&& b.vm_config.cpu_count == DEFAULT_CPU_COUNT
                    &&& b.vm_config.memory_mb == DEFAULT_MEMORY_MB
                    &&& b.instances.deep_view() == Map::<Seq<char>, VmInstanceV>::empty()
                },
                Err(e) => !macos && e@ == "VirtualizationBackend requires macOS"@,
            },
    {
        if !macos {
            return Err("VirtualizationBackend requires macOS".to_owned());
        }
        let (kernel_path, initrd_path): (String, Option<String>) = match kernel {
            Ok(k) => k,
            Err(_) => ("/var/lib/k3rs/vmlinux".to_owned(), None),
        };
        Ok(
            VirtualizationBackend {
                data_dir: join_path(data_dir, "vms"),
                kernel_path,
                initrd_path,
                vm_config: VmConfig::default(),
                instances: VmTable::new(),
            },
        )
    }

    /// The backend with other resources for its VMs.
    pub fn with_config(self, config: VmConfig) -> (r: Self)
        ensures
            r.vm_config == config,
            r.data_dir@ == self.data_dir@,
            r.kernel_path@ == self.kernel_path@,
            r.initrd_path.deep_view() == self.initrd_path.deep_view(),
            r.instances.deep_view() == self.instances.deep_view(),
    {
        VirtualizationBackend {
            data_dir: self.data_dir,
            kernel_path: self.kernel_path,
            initrd_path: self.initrd_path,
            vm_config: config,
            instances: self.instances,
        }
    }

    /// Checks that a VM can be started and gives its rootfs directory.
    pub fn prepare_start(&self, id: &str, kernel_present: bool) -> (r: Result<String, String>)
        ensures
            match r {
                Ok(d) => kernel_present && self.instances.deep_view().contains_key(id@) && d@
                    == self.instances.deep_view()[id@].rootfs_dir,
                Err(e) => if !kernel_present {
                    e@ == "Kernel missing at "@ + self.kernel_path@
                        + " — run `scripts/build-kernel.sh`"@
                } else {
                    !self.instances.deep_view().contains_key(id@) && e@ == "VM "@ + id@
                        + " not found — call create() first"@
                },
            },
    {
        if !kernel_present {
            return Err(
                cat3(
                    "Kernel missing at ",
                    self.kernel_path.as_str(),
                    " — run `scripts/build-kernel.sh`",
                ),
            );
        }
        match self.instances.get(id) {
            Some(v) => Ok(v.rootfs_dir.clone()),
            None => Err(cat3("VM ", id, " not found — call create() first")),
        }
    }

    /// What is reported of a VM: what is known of it, else what the helper
    /// answers, if it does: whether it runs, and under which PID.
    pub fn state(&self, id: &str, helper: Option<bool>, pid: u32) -> (r: Result<
        ContainerStateInfo,
        String,
    >)
        ensures
            match r {
                Ok(s) => if self.instances.deep_view().contains_key(id@) {
                    s.deep_view() == vm_report(id@, self.instances.deep_view()[id@])
                } else {
                    helper is Some && s.deep_view() == helper_report(
                        self.data_dir@,
                        id@,
                        helper->0,
                        pid,
                    )
                },
                Err(e) => !self.instances.deep_view().contains_key(id@) && helper is None && e@
                    == "VM "@ + id@ + " not found (not tracked and k3rs-vmm unavailable)"@,
            },
    {
        match self.instances.report(id) {
            Some(s) => Ok(s),
            None => match helper {
                Some(running) => Ok(self.external_report(id, running, pid)),
                None => Err(
                    cat3("VM ", id, " not found (not tracked and k3rs-vmm unavailable)"),
                ),
            },
        }
    }

    /// Enters a VM whose rootfs was prepared.
    pub fn create(&mut self, id: &str, rootfs_dir: &str)
        ensures
            final(self).instances.deep_view() == old(self).instances.deep_view().insert(
                id@,
                fresh_vm(rootfs_dir@, vm_file(old(self).data_dir@, id@, ".log"@), 0),
            ),
            same_setup(*final(self), *old(self)),
    {
        let log: String = self.log_path(id);
        self.instances.create(id, rootfs_dir, log.as_str(), 0);
    }

    /// Records that a VM has booted.
    pub fn started(&mut self, id: &str, pid: Option<u32>)
        ensures
            final(self).instances.deep_view() == vm_started(
                old(self).instances.deep_view(),
                id@,
                pid,
                None,
            ),
            same_setup(*final(self), *old(self)),
    {
        self.instances.start(id, pid, None);
    }

    /// How a VM is brought to an end, after the helper was asked or could not be
    /// found.
    pub fn stop_vm(&self, id: &str, helper_succeeded: bool) -> (r: StopPlan)
        ensures
            r == if helper_succeeded {
                StopPlan::Done
            } else if self.instances.deep_view().contains_key(id@)
                && self.instances.deep_view()[id@].vmm_pid is Some {
                StopPlan::Kill(self.instances.deep_view()[id@].vmm_pid->0)
            } else {
                StopPlan::Nothing
            },
    {
        match self.instances.get(id) {
            Some(v) => stop_plan(helper_succeeded, v.vmm_pid),
            None => stop_plan(helper_succeeded, None),
        }
    }

    /// Records that a VM has ended.
    pub fn stopped(&mut self, id: &str)
        ensures
            final(self).instances.deep_view() == vm_stopped(old(self).instances.deep_view(), id@),
            same_setup(*final(self), *old(self)),
    {
        self.instances.stop(id);
    }

    /// Forgets a VM. Gives the directories and the files to remove: those that
    /// it was known by, and those that go by its name.
    pub fn delete(&mut self, id: &str) -> (r: (Vec<String>, Vec<String>))
        ensures
            final(self).instances.deep_view() == old(self).instances.deep_view().remove(id@),
            same_setup(*final(self), *old(self)),
            r.0.deep_view() == if old(self).instances.deep_view().contains_key(id@) {
                seq![
                    old(self).instances.deep_view()[id@].rootfs_dir,
                    vm_file(old(self).data_dir@, id@, "-rootfs"@),
                ]
            } else {
                seq![vm_file(old(self).data_dir@, id@, "-rootfs"@)]
            },
            r.1.deep_view() == if old(self).instances.deep_view().contains_key(id@) {
                seq![
                    old(self).instances.deep_view()[id@].log_path,
                    vm_file(old(self).data_dir@, id@, ".log"@),
                ]
            } else {
                seq![vm_file(old(self).data_dir@, id@, ".log"@)]
            },
    {
        let mut dirs: Vec<String> = Vec::new();
        let mut files: Vec<String> = Vec::new();
        let ghost before = self.instances.deep_view();
        if let Some(v) = self.instances.delete(id) {
            assert(v.deep_view() == before[id@]);
            dirs.push(v.rootfs_dir);
            files.push(v.log_path);
        }
        dirs.push(self.rootfs_dir(id));
        files.push(self.log_path(id));
        assert(dirs.deep_view() =~= if before.contains_key(id@) {
            seq![before[id@].rootfs_dir, vm_file(self.data_dir@, id@, "-rootfs"@)]
        } else {
            seq![vm_file(self.data_dir@, id@, "-rootfs"@)]
        });
        assert(files.deep_view() =~= if before.contains_key(id@) {
            seq![before[id@].log_path, vm_file(self.data_dir@, id@, ".log"@)]
        } else {
            seq![vm_file(self.data_dir@, id@, ".log"@)]
        });
        (dirs, files)
    }

    /// Checks that a command can be run in a VM, from what is known of it and
    /// else from what the helper answers.
    pub fn exec_ready(&self, id: &str, helper: Option<bool>, pid: u32) -> (r: Result<(), String>)
        ensures
            match r {
                Ok(_) => if self.instances.deep_view().contains_key(id@) {
                    self.instances.deep_view()[id@].state == VmState::Running
                } else {
                    helper == Some(true)
                },
                Err(e) => if self.instances.deep_view().contains_key(id@) {
                    &&& self.instances.deep_view()[id@].state != VmState::Running
                    &&& e@ == "VM "@ + id@ + " is not running (status: "@ + vm_state_text(
                        self.instances.deep_view()[id@].state,
                    ) + ")"@
                } else if helper is Some {
                    helper == Some(false) && e@ == "VM "@ + id@ + " is not running (status: "@
                        + "stopped"@ + ")"@
                } else {
                    e@ == "VM "@ + id@ + " not found (not tracked and k3rs-vmm unavailable)"@
                },
            },
    {
        if self.instances.is_running(id) {
            return Ok(());
        }
        match self.state(id, helper, pid) {
            Ok(s) => {
                proof {
                    reveal_strlit("running");
                    reveal_strlit("created");
                    reveal_strlit("stopped");
                    assert("running"@[0] == 'r');
                    assert("created"@[0] == 'c');
                    assert("stopped"@[0] == 's');
                }
                if str_eq(s.status.as_str(), "running") {
                    Ok(())
                } else {
                    Err(not_running(id, s.status.as_str()))
                }
            },
            Err(e) => Err(e),
        }
    }

    /// Lists the VMs that run: those known to run and those that the helper lists,
    /// each once. What the helper lists is entered where it was not known.
    pub fn list(&mut self, listing: &Vec<(String, Option<u32>)>) -> (r: Vec<String>)
        ensures
            r.deep_view().no_duplicates(),
            forall|k: Seq<char>| #[trigger]
                r.deep_view().contains(k) <==> (old(self).instances.deep_view().contains_key(k)
                    && old(self).instances.deep_view()[k].state == VmState::Running)
                    || listed_ids(listing.deep_view()).contains(k),
            final(self).instances.deep_view() == with_recovered(
                old(self).data_dir@,
                old(self).instances.deep_view(),
                listing.deep_view(),
            ),
            same_setup(*final(self), *old(self)),
    {
        let running: Vec<String> = self.instances.running();
        self.rediscover(listing);
        let mut ids: Vec<String> = Vec::new();
        let mut i: usize = 0;
        while i < listing.len()
            invariant
                i <= listing@.len(),
                ids@.len() == i,
                forall|j: int| 0 <= j < i ==> (#[trigger] ids@[j])@ == listing@[j].0@,
            decreases listing@.len() - i,
        {
            ids.push(listing[i].0.clone());
            i = i + 1;
        }
        assert(ids.deep_view() =~= listed_ids(listing.deep_view()));
        union_of(running, &ids)
    }

    /// Enters the VMs of a listing that are not known yet.
    pub fn rediscover(&mut self, listing: &Vec<(String, Option<u32>)>)
        ensures
            final(self).instances.deep_view() == with_recovered(
                old(self).data_dir@,
                old(self).instances.deep_view(),
                listing.deep_view(),
            ),
            same_setup(*final(self), *old(self)),
    {
        let ghost all = listing.deep_view();
        let ghost start = self.instances.deep_view();
        let mut i: usize = 0;
        assert(all.take(0) =~= Seq::<(Seq<char>, Option<u32>)>::empty());
        while i < listing.len()
            invariant
                i <= listing@.len(),
                all == listing.deep_view(),
                start == old(self).instances.deep_view(),
                same_setup(*self, *old(self)),
                self.instances.deep_view() == with_recovered(
                    self.data_dir@,
                    start,
                    all.take(i as int),
                ),
            decreases listing@.len() - i,
        {
            assert(all.take(i + 1).drop_last() =~= all.take(i as int));
            assert(all.take(i + 1).last() == (listing@[i as int].0@, listing@[i as int].1));
            let dir: String = self.data_dir.clone();
            let _entered: bool = self.instances.recover(
                dir.as_str(),
                listing[i].0.as_str(),
                listing[i].1,
            );
            i = i + 1;
        }
        assert(all.take(i as int) =~= all);
    }
}

/// A listing of the helper names the machines that run, with their process where it
/// is a number, and no others.
pub proof fn law_running_machines_are_listed(
    stdout: &str,
    r: Vec<(String, Option<u32>)>,
    i: int,
    k: int,
)
    requires
        call_ensures(parse_ls, (stdout,), r),
    ensures
        0 <= i < lines_of(stdout@).len() && words(lines_of(stdout@)[i]).len() >= 3 && words(
            lines_of(stdout@)[i],
        )[2] == "running"@ ==> exists|m: int|
            0 <= m < r.len() && (#[trigger] r.deep_view()[m]).0 == words(lines_of(stdout@)[i])[0],
        0 <= k < r.len() ==> exists|j: int|
            0 <= j < lines_of(stdout@).len() && words(#[trigger] lines_of(stdout@)[j]).len() >= 3
                && words(lines_of(stdout@)[j])[2] == "running"@ && words(lines_of(stdout@)[j])[0]
                == r.deep_view()[k].0 && match r.deep_view()[k].1 {
                Some(p) => parse_unsigned(words(lines_of(stdout@)[j])[1], 0xffff_ffff) == Some(
                    p as nat,
                ),
                None => parse_unsigned(words(lines_of(stdout@)[j])[1], 0xffff_ffff) is None,
            },
{
    let all = lines_of(stdout@);
    let f = ls_rule();
    let out = r.deep_view();
    assert(out.len() == r.len());
    if 0 <= i < all.len() && words(all[i]).len() >= 3 && words(all[i])[2] == "running"@ {
        lemma_filter_map_has(all, f, i);
        let m = choose|m: int| 0 <= m < out.len() && out[m] == f(all[i])->0;
        assert(out[m].0 == words(all[i])[0]);
    }
    if 0 <= k < r.len() {
        assert(out.contains(out[k]));
        all.lemma_filter_map_contains(f, out[k]);
        let j = choose|j: int| 0 <= j < all.len() && #[trigger] f(all[j]) == Some(out[k]);
        assert(words(all[j]).len() >= 3);
        match parse_unsigned(words(all[j])[1], 0xffff_ffff) {
            Some(p) => {
                assert(p <= 0xffff_ffff);
            },
            None => {},
        }
    }
}

/// A machine is stopped by its helper where that succeeds, else by ending its
/// process where it has one.
pub proof fn law_stop_falls_back(
    b: VirtualizationBackend,
    id: &str,
    helper_succeeded: bool,
    pid: Option<u32>,
    r: StopPlan,
    s: StopPlan,
)
    requires
        call_ensures(stop_plan, (helper_succeeded, pid), r),
        call_ensures(VirtualizationBackend::stop_vm, (&b, id, helper_succeeded), s),
    ensures
        helper_succeeded ==> r == StopPlan::Done && s == StopPlan::Done,
        !helper_succeeded ==> (pid matches Some(p) ==> r == StopPlan::Kill(p)),
        !helper_succeeded && pid is None ==> r == StopPlan::Nothing,
        !helper_succeeded && b.instances.deep_view().contains_key(id@) ==> (
        b.instances.deep_view()[id@].vmm_pid matches Some(p) ==> s == StopPlan::Kill(p)),
        !helper_succeeded && !b.instances.deep_view().contains_key(id@) ==> s == StopPlan::Nothing,
{
}

/// A machine is booted from the kernel and its root with the given processors and
/// memory, under its id, with its log where it is looked for, and with an initrd
/// exactly where there is one.
pub proof fn law_machine_is_booted_as_configured(
    b: VirtualizationBackend,
    id: &str,
    rootfs_dir: &str,
    r: Vec<String>,
    log: String,
)
    requires
        call_ensures(VirtualizationBackend::boot_args, (&b, id, rootfs_dir), r),
        call_ensures(VirtualizationBackend::log_path, (&b, id), log),
    ensures
        r.len() >= 14,
        r.deep_view().take(14) == seq![
            "boot"@,
            "--kernel"@,
            b.kernel_path@,
            "--rootfs"@,
            rootfs_dir@,
            "--cpus"@,
            decimal(b.vm_config.cpu_count as nat),
            "--memory"@,
            decimal(b.vm_config.memory_mb as nat),
            "--id"@,
            id@,
            "--log"@,
            log@,
            "--foreground"@,
        ],
        b.initrd_path is None ==> r.len() == 14,
        b.initrd_path matches Some(p) ==> r.deep_view().skip(14) == seq!["--initrd"@, p@],
{
    assert(r.deep_view().len() == r.len());
}

/// Commands are run in the machine with the id, after the options.
pub proof fn law_commands_run_in_the_machine(
    id: &str,
    command: Vec<String>,
    tty: bool,
    r: Vec<String>,
    s: Vec<String>,
)
    requires
        call_ensures(VirtualizationBackend::exec_args, (id, &command), r),
        call_ensures(VirtualizationBackend::spawn_exec_args, (id, &command, tty), s),
        command.len() > 0,
    ensures
        r.deep_view() == seq!["exec"@, "--id"@, id@, "--"@] + command.deep_view(),
        !tty ==> s.deep_view() == r.deep_view(),
        tty ==> s.deep_view() == seq!["exec"@, "--id"@, id@, "--tty"@, "--"@]
            + command.deep_view(),
{
    assert(command.deep_view().len() == command.len());
}

/// A machine is started exactly where the kernel is there and the machine is known,
/// from its own root.
pub proof fn law_start_needs_kernel_and_machine(
    b: VirtualizationBackend,
    id: &str,
    kernel_present: bool,
    r: Result<String, String>,
)
    requires
        call_ensures(VirtualizationBackend::prepare_start, (&b, id, kernel_present), r),
    ensures
        r is Ok <==> kernel_present && b.instances.deep_view().contains_key(id@),
        r matches Ok(d) ==> d@ == b.instances.deep_view()[id@].rootfs_dir,
{
}

/// Commands can be run in a known machine exactly while it runs, and in another
/// exactly where the helper says that it runs; the same is reported of it.
pub proof fn law_commands_need_a_running_machine(
    b: VirtualizationBackend,
    id: &str,
    helper: Option<bool>,
    pid: u32,
    r: Result<(), String>,
    s: Result<ContainerStateInfo, String>,
)
    requires
        call_ensures(VirtualizationBackend::exec_ready, (&b, id, helper, pid), r),
        call_ensures(VirtualizationBackend::state, (&b, id, helper, pid), s),
    ensures
        b.instances.deep_view().contains_key(id@) ==> (r is Ok <==> b.instances.deep_view()[id@].state
            == VmState::Running),
        !b.instances.deep_view().contains_key(id@) ==> (r is Ok <==> helper == Some(true)),
        s is Ok <==> b.instances.deep_view().contains_key(id@) || helper is Some,
        r is Ok ==> s is Ok && s->Ok_0.status@ == "running"@,
        !b.instances.deep_view().contains_key(id@) && helper == Some(true) ==> s->Ok_0.pid == pid,
        !b.instances.deep_view().contains_key(id@) && helper == Some(false)
            ==> s->Ok_0.status@ == "stopped"@ && s->Ok_0.pid == 0,
{
}

/// The backend is for macOS alone: there it takes the kernel that was found, or the
/// standard one, and starts without machines.
pub proof fn law_backend_is_for_macos(
    data_dir: &str,
    macos: bool,
    kernel: Result<(String, Option<String>), String>,
    r: Result<VirtualizationBackend, String>,
)
    requires
        call_ensures(VirtualizationBackend::new, (data_dir, macos, kernel), r),
    ensures
        r is Ok <==> macos,
        r matches Ok(b) ==> {
            &&& b.data_dir@ == path_join(data_dir@, "vms"@)
            &&& kernel matches Ok(k) ==> b.kernel_path@ == k.0@ && b.initrd_path.deep_view()
                == k.1.deep_view()
            &&& kernel is Err ==> b.kernel_path@ == "/var/lib/k3rs/vmlinux"@ && b.initrd_path
                is None
            &&& forall|id: Seq<char>| !#[trigger] b.instances.deep_view().contains_key(id)
        },
{
}

/// What runs a command in a machine gives its output where it succeeds, and both
/// outputs, trimmed, where it does not.
pub proof fn law_machine_gives_output(
    success: bool,
    stdout: &str,
    stderr: &str,
    r: Result<String, String>,
)
    requires
        call_ensures(VirtualizationBackend::exec_result, (success, stdout, stderr), r),
    ensures
        success ==> r is Ok && r->Ok_0@ == stdout@,
        !success ==> r is Err && r->Err_0@ == "k3rs-vmm exec failed: "@ + trimmed(stdout@)
            + trimmed(stderr@),
{
}

/// The helper is taken from the path where it is there, else from the first of the
/// known places that has it.
pub proof fn law_helper_is_found(
    success: bool,
    stdout: &str,
    present: Vec<bool>,
    r: Option<String>,
)
    requires
        call_ensures(which_vmm, (success, stdout, &present), r),
        present.len() == 4,
    ensures
        success && trimmed(stdout@).len() > 0 ==> r is Some && r->0@ == trimmed(stdout@),
        !success && present[0] ==> r is Some && r->0@ == "./target/release/k3rs-vmm"@,
        !success && !present[0] && present[1] ==> r is Some && r->0@ == "./target/debug/k3rs-vmm"@,
        !success && !present[0] && !present[1] && present[2] ==> r is Some && r->0@
            == "/var/lib/k3rs/bin/k3rs-vmm"@,
        !success && !present[0] && !present[1] && !present[2] && present[3] ==> r is Some && r->0@
            == "./k3rs-vmm"@,
        !success && !present[0] && !present[1] && !present[2] && !present[3] ==> r is None,
{
    reveal_with_fuel(first_present, 6);
}

/// A machine that is made is created with its root, one that was started runs, one
/// that was stopped has ended, and a deleted one is not known any more and leaves its
/// root and its log to be removed.
pub proof fn law_backend_follows_its_machines(
    made: &mut VirtualizationBackend,
    up: &mut VirtualizationBackend,
    down: &mut VirtualizationBackend,
    gone: &mut VirtualizationBackend,
    id: &str,
    rootfs_dir: &str,
    pid: Option<u32>,
    r: (Vec<String>, Vec<String>),
)
    requires
        call_ensures(VirtualizationBackend::create, (made, id, rootfs_dir), ()),
        call_ensures(VirtualizationBackend::started, (up, id, pid), ()),
        call_ensures(VirtualizationBackend::stopped, (down, id), ()),
        call_ensures(VirtualizationBackend::delete, (gone, id), r),
        up.instances.deep_view().contains_key(id@),
        down.instances.deep_view().contains_key(id@),
    ensures
        final(made).instances.deep_view().contains_key(id@),
        final(made).instances.deep_view()[id@].state == VmState::Created,
        final(made).instances.deep_view()[id@].rootfs_dir == rootfs_dir@,
        final(made).instances.deep_view()[id@].log_path == path_join(
            old(made).data_dir@,
            id@ + ".log"@,
        ),
        final(up).instances.deep_view()[id@].state == VmState::Running,
        final(up).instances.deep_view()[id@].vmm_pid == pid,
        final(down).instances.deep_view()[id@].state == VmState::Stopped,
        final(down).instances.deep_view()[id@].vmm_pid is None,
        !final(gone).instances.deep_view().contains_key(id@),
        r.0.deep_view().contains(path_join(old(gone).data_dir@, id@ + "-rootfs"@)),
        r.1.deep_view().contains(path_join(old(gone).data_dir@, id@ + ".log"@)),
        old(gone).instances.deep_view().contains_key(id@) ==> r.0.deep_view().contains(
            old(gone).instances.deep_view()[id@].rootfs_dir,
        ) && r.1.deep_view().contains(old(gone).instances.deep_view()[id@].log_path),
{
    let a = r.0.deep_view();
    let b = r.1.deep_view();
    assert(a.last() == a[a.len() - 1]);
    assert(b.last() == b[b.len() - 1]);
    assert(a[0] == a[0] && b[0] == b[0]);
}

/// The machines that run are those that are known to and those that the helper
/// lists, each named once; what it lists is known from then on.
pub proof fn law_running_machines_are_named(
    b: &mut VirtualizationBackend,
    listing: Vec<(String, Option<u32>)>,
    r: Vec<String>,
    i: int,
    id: Seq<char>,
)
    requires
        call_ensures(VirtualizationBackend::list, (b, &listing), r),
        0 <= i < listing.len(),
    ensures
        r.deep_view().no_duplicates(),
        r.deep_view().contains(listing[i].0@),
        final(b).instances.deep_view().contains_key(listing[i].0@),
        old(b).instances.deep_view().contains_key(id) && old(b).instances.deep_view()[id].state
            == VmState::Running ==> r.deep_view().contains(id),
        r.deep_view().contains(id) ==> (old(b).instances.deep_view().contains_key(id) && old(b).instances.deep_view()[id].state == VmState::Running) || exists|k: int|
            0 <= k < listing.len() && (#[trigger] listing[k]).0@ == id,
{
    let all = listing.deep_view();
    let ids = listed_ids(all);
    assert(all[i].0 == listing[i].0@);
    assert(ids[i] == listing[i].0@);
    assert(ids.contains(listing[i].0@));
    law_rediscovery_takes_up(
        old(b).data_dir@,
        old(b).instances.deep_view(),
        all,
        listing[i].0@,
    );
    if ids.contains(id) {
        let k = choose|k: int| 0 <= k < ids.len() && ids[k] == id;
        assert(listing[k].0@ == id);
    }
}

/// Of what the helper says about a machine, the line of its state decides, wherever it
/// stands: the machine runs exactly where that line says so, and without such a line
/// nothing is known.
pub proof fn law_state_is_read(stdout: &str, i: int, r: Option<bool>)
    requires
        call_ensures(parse_state, (stdout,), r),
    ensures
        (0 <= i < lines_of(stdout@).len() && has_prefix(lines_of(stdout@)[i], "state="@) && forall|
            j: int,
        |
            0 <= j < i ==> !has_prefix(#[trigger] lines_of(stdout@)[j], "state="@)) ==> r == Some(
            trimmed(lines_of(stdout@)[i].skip("state="@.len() as int)) == "running"@,
        ),
        (forall|j: int|
            0 <= j < lines_of(stdout@).len() ==> !has_prefix(
                #[trigger] lines_of(stdout@)[j],
                "state="@,
            )) ==> r is None,
{
    let all = lines_of(stdout@);
    if 0 <= i < all.len() && has_prefix(all[i], "state="@) && forall|j: int|
        0 <= j < i ==> !has_prefix(#[trigger] all[j], "state="@) {
        lemma_state_in(all, i);
    }
    if forall|j: int| 0 <= j < all.len() ==> !has_prefix(#[trigger] all[j], "state="@) {
        lemma_state_in(all, all.len() as int);
    }
}

proof fn lemma_state_in(all: Seq<Seq<char>>, i: int)
    requires
        0 <= i <= all.len(),
        forall|j: int| 0 <= j < i ==> !has_prefix(#[trigger] all[j], "state="@),
        i < all.len() ==> has_prefix(all[i], "state="@),
    ensures
        state_in(all) == if i < all.len() {
            Some(trimmed(all[i].skip("state="@.len() as int)) == "running"@)
        } else {
            None
        },
    decreases i,
{
    if i > 0 {
        let t = all.skip(1);
        assert(!has_prefix(all[0], "state="@));
        assert forall|j: int| 0 <= j < i - 1 implies !has_prefix(#[trigger] t[j], "state="@) by {
            assert(t[j] == all[j + 1]);
        }
        if i < all.len() {
            assert(t[i - 1] == all[i]);
        }
        lemma_state_in(t, i - 1);
    }
}

/// The number of the first process that was found is taken, and none stands for zero.
pub proof fn law_found_process_is_taken(stdout: &str, n: u32, rest: Seq<char>, r: u32)
    requires
        call_ensures(parse_pgrep, (stdout,), r),
    ensures
        trimmed(stdout@) == decimal(n as nat) ==> r == n,
        trimmed(stdout@) == decimal(n as nat) + seq!['\n'] + rest ==> r == n,
        trimmed(stdout@).len() == 0 ==> r == 0,
{
    let d = decimal(n as nat);
    crate::numbers::lemma_decimal_digits(n as nat);
    crate::numbers::law_decimal_is_read_back(n as nat, 0xffff_ffff);
    assert(!d.contains('\n')) by {
        assert forall|i: int| 0 <= i < d.len() implies d[i] != '\n' by {
            assert(crate::numbers::is_digit(d[i]));
        }
    }
    assert(crate::numbers::is_digit(d[d.len() - 1]));
    crate::split::law_lines(d, rest);
    if trimmed(stdout@).len() == 0 {
        assert(trimmed(stdout@) =~= Seq::<char>::empty());
        crate::split::law_lines(d, Seq::empty());
    }
}

} // verus!
