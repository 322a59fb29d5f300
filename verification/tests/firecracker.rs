//! The Firecracker backend: requests, paths, networking and images.
use k3rs::container::backend::RuntimeBackend;
use k3rs::container::firecracker::api::FcApiClient;
use k3rs::container::firecracker::backend::{FirecrackerBackend, PidEntry, VpcBootParams, FC_GUEST_CID};
use k3rs::container::firecracker::installer::{ArchiveEntry, FcInstaller, Source};
use k3rs::container::firecracker::jailer::Jailer;
use k3rs::container::firecracker::network::FcNetworkManager;
use k3rs::container::firecracker::rootfs::{
    FcRootfsManager, FcRootfsMode, ImageNext, ImageStep, RootfsStrategy, StepResult,
};
use k3rs::container::vm::{VmState, VmTable, WaitStep};

fn strings(items: &[&str]) -> Vec<String> {
    items.iter().map(|s| s.to_string()).collect()
}

fn backend() -> FirecrackerBackend {
    FirecrackerBackend {
        data_dir: "/tmp/test-vms".to_string(),
        kernel_path: "/tmp/vmlinux".to_string(),
        initrd_path: None,
        firecracker_bin: "/usr/local/bin/firecracker".to_string(),
        jailer_bin: None,
        instances: VmTable::new(),
        next_cid: FC_GUEST_CID,
        version_string: "firecracker-1.10.1".to_string(),
    }
}

// The API client

#[test]
fn test_api_client_new() {
    let client = FcApiClient::new("/tmp/test.sock");
    assert_eq!(client.socket_path, "/tmp/test.sock");
}

#[test]
fn requests_are_written_as_http() {
    assert_eq!(
        FcApiClient::put_request("/x", "{\"é\":1}"),
        "PUT /x HTTP/1.1\r\nHost: localhost\r\nAccept: application/json\r\nContent-Type: application/json\r\nContent-Length: 8\r\n\r\n{\"é\":1}"
    );
    let sent = FcApiClient::encode(FcApiClient::set_machine_config(2, 512));
    assert!(sent.starts_with("PUT /machine-config HTTP/1.1\r\n"));
    assert!(sent.ends_with("\r\n\r\n{\"mem_size_mib\":512,\"vcpu_count\":2}"));
    let drive = FcApiClient::encode(FcApiClient::add_drive("rootfs", "/i", true, false));
    assert!(drive.ends_with(
        "{\"drive_id\":\"rootfs\",\"is_read_only\":false,\"is_root_device\":true,\"path_on_host\":\"/i\"}"
    ));
    let off = FcApiClient::encode(FcApiClient::send_ctrl_alt_del());
    assert!(off.ends_with("{\"action_type\":\"SendCtrlAltDel\"}"));
}

#[test]
fn responses_are_read() {
    let ok = "HTTP/1.1 204 No Content\r\nServer: x\r\n\r\nbody";
    assert_eq!(FcApiClient::status(ok), 204);
    assert_eq!(FcApiClient::body(ok), "body");
    assert_eq!(FcApiClient::put_result("/x", ok).unwrap(), "body");
    let bad = "HTTP/1.1 400 Bad Request\r\n\r\n {\"fault\":1} ";
    assert_eq!(
        FcApiClient::put_result("/x", bad).unwrap_err(),
        "Firecracker API error: HTTP 400 for PUT /x — {\"fault\":1}"
    );
    assert_eq!(FcApiClient::status(""), 500);
    assert_eq!(FcApiClient::status("HTTP/1.1 many"), 500);
    assert_eq!(FcApiClient::body("no separator"), "");
    let config = FcApiClient::machine_config_result("HTTP/1.1 200 OK\r\n\r\n{\"a\":\"b\"}");
    assert_eq!(config.get_str("a"), Some(&"b".to_string()));
    assert!(FcApiClient::machine_config_result("x").get("a").is_none());
}

// Networking

#[test]
fn test_guest_ip() {
    assert_eq!(FcNetworkManager::guest_ip(3), "172.16.3.2");
    assert_eq!(FcNetworkManager::guest_ip(42), "172.16.42.2");
}

#[test]
fn test_host_ip() {
    assert_eq!(FcNetworkManager::host_ip(3), "172.16.3.1");
}

#[test]
fn devices_are_named_by_the_first_bytes() {
    assert_eq!(FcNetworkManager::tap_name("0123456789"), "tap-01234567");
    assert_eq!(FcNetworkManager::tap_name("abc"), "tap-abc");
    assert!(!FcNetworkManager::can_name("0123456é"));
    assert!(!FcNetworkManager::can_name("0123456\u{20ac}"));
    assert_eq!(FcNetworkManager::host_cidr(3), "172.16.3.1/30");
}

#[test]
fn devices_are_set_up() {
    assert_eq!(
        FcNetworkManager::setup_tap_commands("vm-000001", 3).len(),
        3
    );
    assert!(FcNetworkManager::done_or_present(false, "RTNETLINK answers: File exists"));
    assert!(!FcNetworkManager::done_or_present(false, "denied"));
    assert!(FcNetworkManager::done_or_present(true, ""));
    assert!(FcNetworkManager::after_setup_command(0, "tap-a", false, "denied").is_err());
    assert!(FcNetworkManager::after_setup_command(0, "tap-a", true, "").is_ok());
}

#[test]
fn traffic_leaves_by_the_default_route() {
    assert_eq!(
        FcNetworkManager::default_interface("default via 10.0.0.1 dev wlan0 proto dhcp"),
        "wlan0"
    );
    assert_eq!(FcNetworkManager::default_interface(""), "eth0");
    assert_eq!(FcNetworkManager::default_interface("default dev"), "eth0");
    assert_eq!(
        FcNetworkManager::nat_check("default dev en0"),
        strings(&["-t", "nat", "-C", "POSTROUTING", "-o", "en0", "-j", "MASQUERADE"])
    );
    assert_eq!(
        FcNetworkManager::setup_nat("default dev en0", Some(false)),
        Some(FcNetworkManager::masquerade_args(true, "en0"))
    );
    assert_eq!(FcNetworkManager::setup_nat("default dev en0", Some(true)), None);
}

// Jails

#[test]
fn test_chroot_dir() {
    let jailer = Jailer::new("/usr/local/bin/jailer");
    assert_eq!(
        jailer.chroot_dir("test-vm"),
        "/tmp/k3rs-jailer/firecracker/test-vm/root"
    );
}

#[test]
fn test_api_socket_in_chroot() {
    let jailer = Jailer::new("/usr/local/bin/jailer");
    assert_eq!(
        jailer.api_socket_in_chroot("test-vm", "api.sock"),
        "/tmp/k3rs-jailer/firecracker/test-vm/root/api.sock"
    );
}

#[test]
fn jailed_machines_never_run_as_root() {
    let jailer = Jailer::new("/usr/local/bin/jailer");
    let args = jailer.wrap_command("vm", "/bin/fc", "api.sock", 0, 0);
    let uid = args.iter().position(|a| a == "--uid").unwrap();
    assert_ne!(args[uid + 1], "0");
    let own = jailer.wrap_command("vm", "/bin/fc", "api.sock", 1000, 100);
    assert_eq!(own[uid + 1], "1000");
    assert_eq!(
        jailer.prepare_chroot("vm", "/d/vm-rootfs.ext4"),
        (
            "/tmp/k3rs-jailer/firecracker/vm/root/vmlinux".to_string(),
            "/tmp/k3rs-jailer/firecracker/vm/root/vm-rootfs.ext4".to_string()
        )
    );
    assert_eq!(jailer.cleanup_dir("vm"), "/tmp/k3rs-jailer/firecracker/vm");
}

// Root file systems

#[test]
fn test_detect_mode_returns_strategy() {
    for available in [true, false] {
        let mode = FcRootfsManager::detect_mode(available);
        assert!(mode == RootfsStrategy::Ext4 || mode == RootfsStrategy::Virtiofsd);
    }
    assert_eq!(FcRootfsManager::detect_mode(true), RootfsStrategy::Virtiofsd);
    assert_eq!(FcRootfsManager::detect_mode(false), RootfsStrategy::Ext4);
}

#[test]
fn images_have_room() {
    assert_eq!(FcRootfsManager::image_size(0), 128);
    assert_eq!(FcRootfsManager::image_size(100 << 20), 164);
    assert_eq!(FcRootfsManager::dir_size("4096\t/r\n"), 4096);
    assert_eq!(FcRootfsManager::dir_size(""), 0);
    assert_eq!(FcRootfsManager::dir_size("-1 /r"), 0);
    assert_eq!(FcRootfsManager::mount_point("/d/vm-rootfs.ext4"), "/d/vm-rootfs.mnt");
    assert_eq!(FcRootfsManager::mount_point("/d.x/vm"), "/d.x/vm.mnt");
    assert_eq!(FcRootfsManager::mount_point(".hidden"), ".hidden.mnt");
    let paths = [
        "a/b.ext/", "a/b.ext/.", "a/b/./", "..", "a/..", "/", ".", "", "a/.hidden", "a.b/c", "a..b",
        "..x", "a/..x", "a/..x/", "./", "a//", "x.", "/.", "a/...", "./.", "é.ü/", "a.b/.",
    ];
    for p in paths {
        let expected = std::path::Path::new(p).with_extension("mnt");
        assert_eq!(FcRootfsManager::mount_point(p), expected.to_str().unwrap(), "{:?}", p);
    }
}

#[test]
fn images_are_made_step_by_step() {
    let mut step = ImageStep::Truncate;
    let mut seen = 0;
    while step != ImageStep::Done {
        match FcRootfsManager::next_step(step, &StepResult::Success) {
            ImageNext::Go(next) => step = next,
            ImageNext::Fail { error, .. } => panic!("{}", error),
        }
        seen += 1;
    }
    assert_eq!(seen, 7);
    let failure = |step: ImageStep, result: StepResult| {
        match FcRootfsManager::next_step(step, &result) {
            ImageNext::Fail { error, remove_mount_point } => (error, remove_mount_point),
            ImageNext::Go(s) => panic!("{:?}", s),
        }
    };
    let failed = |e: &str| StepResult::Failed(e.to_string());
    let not_run = |e: &str| StepResult::NotRun(e.to_string());
    assert_eq!(
        failure(ImageStep::Mount, failed("denied")),
        ("mount -o loop failed (requires root): denied".to_string(), true)
    );
    assert_eq!(
        failure(ImageStep::Mount, not_run("no mount")),
        ("mount -o loop failed".to_string(), false)
    );
    assert_eq!(
        failure(ImageStep::Truncate, failed("full")),
        ("truncate failed: full".to_string(), false)
    );
    assert_eq!(
        failure(ImageStep::Format, not_run("none")),
        ("mkfs.ext4 failed".to_string(), false)
    );
    assert_eq!(failure(ImageStep::MakeMountPoint, not_run("ro")), ("ro".to_string(), false));
    assert!(matches!(
        FcRootfsManager::next_step(ImageStep::Copy, &failed("full")),
        ImageNext::Go(ImageStep::Unmount)
    ));
    assert_eq!(
        FcRootfsManager::step_command(ImageStep::Truncate, "/r", "/d/i.ext4", 128),
        strings(&["truncate", "-s", "128M", "/d/i.ext4"])
    );
    assert_eq!(
        FcRootfsManager::step_command(ImageStep::Copy, "/r", "/d/i.ext4", 128),
        strings(&["cp", "-a", "/r/.", "/d/i.mnt"])
    );
}

#[test]
fn addresses_are_apart() {
    assert_eq!(FcNetworkManager::guest_ip(3), "172.16.3.2");
    assert_ne!(FcNetworkManager::guest_ip(3), FcNetworkManager::guest_ip(4));
    assert_ne!(FcNetworkManager::host_ip(1), FcNetworkManager::host_ip(11));
}

#[test]
fn sockets_are_waited_for() {
    assert_eq!(FcRootfsManager::virtiofsd_wait(0, true), WaitStep::Ready);
    assert_eq!(FcRootfsManager::virtiofsd_wait(49, false), WaitStep::Sleep(50));
    assert_eq!(FcRootfsManager::virtiofsd_wait(50, false), WaitStep::Missing);
    assert_eq!(FcRootfsManager::virtiofsd_wait(50, true), WaitStep::Ready);
    assert_eq!(
        FcRootfsManager::virtiofsd_missing("/s"),
        "virtiofsd socket did not appear at /s"
    );
    assert_eq!(FirecrackerBackend::socket_wait(99, false), WaitStep::Sleep(10));
    assert_eq!(FirecrackerBackend::socket_wait(100, false), WaitStep::Missing);
    assert_eq!(FirecrackerBackend::socket_wait(7, true), WaitStep::Ready);
}

// Binaries

#[test]
fn test_find_in_path_nonexistent() {
    assert!(FcInstaller::find_in_path(
        "nonexistent-binary-k3rs-test",
        FcInstaller::found_by_which(false, ""),
        &vec![false, false, false, false]
    )
    .is_none());
}

#[test]
fn test_kvm_check_returns_bool() {
    assert!(FcInstaller::kvm_available(true, true));
    assert!(!FcInstaller::kvm_available(true, false));
    assert!(!FcInstaller::kvm_available(false, false));
}

#[test]
fn binaries_are_found_or_downloaded() {
    assert_eq!(
        FcInstaller::find_in_path("fc", None, &vec![false, true, true, false]),
        Some("/usr/bin/fc".to_string())
    );
    assert_eq!(FcInstaller::found_by_which(true, "/x/fc\n"), Some("/x/fc".to_string()));
    assert!(matches!(FcInstaller::ensure_firecracker(None, "/i", false), Source::Download));
    match FcInstaller::ensure_firecracker(None, "/i", true) {
        Source::At(p) => assert_eq!(p, "/i/firecracker"),
        Source::Download => panic!("installed"),
    }
    assert_eq!(FcInstaller::ensure_jailer(None, "/i", false), None);
    assert_eq!(
        FcInstaller::download_url("1.10.1", "x86_64"),
        "https://github.com/firecracker-microvm/firecracker/releases/download/v1.10.1/firecracker-v1.10.1-x86_64.tgz"
    );
    assert_eq!(
        FcInstaller::classify("release/firecracker-v1-x86_64", "1", "x86_64"),
        ArchiveEntry::Firecracker
    );
    assert_eq!(
        FcInstaller::classify("release/jailer-v1-x86_64", "1", "x86_64"),
        ArchiveEntry::Jailer
    );
    assert_eq!(
        FcInstaller::classify("release/firecracker-v1-x86_64.debug", "1", "x86_64"),
        ArchiveEntry::Other
    );
    let info: serde_json::Value =
        serde_json::from_str(&FcInstaller::version_info("1", "x86_64", 0)).unwrap();
    assert_eq!(info["downloaded_at"], "1970-01-01T00:00:00+00:00");
}

// The backend

#[test]
fn test_path_helpers() {
    let backend = backend();
    assert_eq!(backend.api_socket_path("vm-001"), "/tmp/test-vms/vm-001.sock");
    assert_eq!(backend.vsock_uds_path("vm-001"), "/tmp/test-vms/vm-001-vsock.sock");
    assert_eq!(
        backend.rootfs_img_path("vm-001"),
        "/tmp/test-vms/vm-001-rootfs.ext4"
    );
    assert_eq!(backend.pid_file_path("vm-001"), "/tmp/test-vms/vm-001.pid");
}

#[test]
fn test_cid_allocation() {
    let mut backend = backend();
    let first = backend.allocate_cid();
    assert_eq!(first, 3);
    let second = backend.allocate_cid();
    assert_eq!(second, 4);
}

#[test]
fn backends_need_kvm_and_a_binary() {
    let made = FirecrackerBackend::new(
        "/d",
        true,
        Ok("/bin/fc".to_string()),
        None,
        Err("none".to_string()),
        "1",
    );
    let b = match made {
        Ok(b) => b,
        Err(e) => panic!("{}", e),
    };
    assert_eq!(b.data_dir, "/d/vms");
    assert_eq!(b.kernel_path, "/var/lib/k3rs/vmlinux");
    assert_eq!(b.version(), "firecracker-1");
    assert_eq!(b.name(), "vm");
    assert!(!b.handles_images());
    let no_kvm = FirecrackerBackend::new(
        "/d",
        false,
        Ok("/bin/fc".to_string()),
        None,
        Err("none".to_string()),
        "1",
    );
    assert!(no_kvm.err().unwrap().starts_with("KVM not available"));
    let no_binary = FirecrackerBackend::new(
        "/d",
        true,
        Err("no fc".to_string()),
        None,
        Err("none".to_string()),
        "1",
    );
    assert_eq!(no_binary.err().unwrap(), "no fc");
}

#[test]
fn machines_boot_from_an_image() {
    let b = backend();
    let ext4 = FcRootfsMode::Ext4 { image_path: "/i".to_string() };
    let plan = b.configure_and_boot("a", &ext4, 3, Some("tap-a"), None);
    let paths: Vec<&str> = plan.requests.iter().map(|r| r.path.as_str()).collect();
    assert_eq!(
        paths,
        vec![
            "/machine-config",
            "/boot-source",
            "/drives/rootfs",
            "/vsock",
            "/network-interfaces/eth0",
            "/actions"
        ]
    );
    assert!(plan.refusal.is_none());
    assert_eq!(
        plan.requests[1].body.get_str("boot_args").unwrap(),
        "console=ttyS0 reboot=k panic=1 pci=off root=/dev/vda rw init=/sbin/k3rs-init ip=172.16.3.2::172.16.3.1:255.255.255.252::eth0:off"
    );
    let vpc = VpcBootParams {
        guest_ipv4: "10.0.0.5".to_string(),
        ghost_ipv6: "fd00::5".to_string(),
        vpc_id: 7,
        vpc_cidr: "10.0.0.0/24".to_string(),
        gw_mac: "02:00".to_string(),
    };
    assert!(FirecrackerBackend::boot_args(Some(&vpc), true, 3).ends_with(
        " k3rs.ipv4=10.0.0.5 k3rs.ipv6=fd00::5 k3rs.vpc_id=7 k3rs.vpc_cidr=10.0.0.0/24 k3rs.gw_mac=02:00"
    ));
    let shared = FcRootfsMode::Virtiofsd {
        shared_dir: "/s".to_string(),
        socket_path: "/t".to_string(),
        virtiofsd_pid: None,
    };
    let refused = b.configure_and_boot("a", &shared, 3, None, None);
    assert_eq!(refused.requests.len(), 2);
    assert_eq!(
        refused.refusal.unwrap(),
        "Firecracker only supports ext4 rootfs (virtio-blk)"
    );
}

#[test]
fn machines_are_restored_from_pid_files() {
    let mut b = backend();
    let file = |name: &str, pid: Option<u32>, alive: bool| PidEntry {
        name: name.to_string(),
        pid,
        alive,
    };
    let files = vec![
        file("a.pid", Some(5), true),
        file("b.pid", Some(6), false),
        file("c.pid", None, true),
        file("d.log", None, false),
    ];
    let r = b.restore_from_pid_files(&files);
    assert_eq!(r.discovered, strings(&["a"]));
    assert_eq!(r.stale, strings(&["b.pid", "c.pid"]));
    assert_eq!(b.instances.get("a").unwrap().vmm_pid, Some(5));
    assert_eq!(b.state("a", None, false).unwrap().status, "running");
    assert_eq!(FirecrackerBackend::vm_of_pid_file("a.pid"), Some("a".to_string()));
    assert_eq!(FirecrackerBackend::pid_in_file(Some("12\n")), Some(12));
    let again = b.list(&files);
    assert_eq!(again.discovered, strings(&["a"]));
}

#[test]
fn life_of_a_firecracker_machine() {
    let mut b = backend();
    assert_eq!(
        b.prepare_start("a", true).unwrap_err(),
        "VM a not found — call create() first"
    );
    assert_eq!(b.create("a", "/r/a"), 3);
    assert_eq!(b.next_cid, 4);
    assert_eq!(b.prepare_start("a", true).unwrap(), 3);
    assert!(b.prepare_start("a", false).is_err());
    assert_eq!(
        b.exec_ready("a", None, false).unwrap_err(),
        "VM a is not running (status: created)"
    );
    b.started("a", 44, Some("tap-a".to_string()));
    assert!(b.exec_ready("a", None, false).is_ok());
    let stop = b.stop_vm("a", true).unwrap();
    assert_eq!(stop.pid, Some(44));
    assert!(stop.ctrl_alt_del && stop.cleanup_tap);
    assert_eq!(stop.files.len(), 3);
    b.stopped("a");
    assert_eq!(b.instances.get("a").unwrap().state, VmState::Stopped);
    let gone = b.delete("a").unwrap();
    assert_eq!(gone.rootfs_dir, "/r/a");
    assert!(!gone.jailed);
    assert!(b.delete("a").is_none());
    assert!(b.stop_vm("a", true).is_none());
    assert_eq!(b.vsock_of("a").unwrap_err(), "VM a not found");
    assert_eq!(b.state("a", Some(9), true).unwrap().pid, 9);
    assert!(b.state("a", Some(9), false).is_err());
}

#[test]
fn commands_travel_over_vsock() {
    assert_eq!(FirecrackerBackend::connect_request(5555), "CONNECT 5555\n");
    assert!(FirecrackerBackend::connect_result(5555, "OK 1073741824\n").is_ok());
    assert_eq!(
        FirecrackerBackend::connect_result(5555, "refused\n").unwrap_err(),
        "vsock CONNECT to port 5555 failed: refused"
    );
    assert_eq!(
        FirecrackerBackend::exec_request(&strings(&["ls", "-l"])),
        "ls\0-l\n"
    );
    assert_eq!(
        FirecrackerBackend::spawn_exec_request(&vec![], true),
        "\u{1}/bin/sh\n"
    );
}
