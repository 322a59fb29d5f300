//! Names, limits, intervals and paths of a cluster.
use vstd::prelude::*;
use crate::text::str_eq;

verus! {

// ---------------------------------------------------------------------------
// Paths
// ---------------------------------------------------------------------------

/// Base directory for all k3rs configuration files.
pub const CONFIG_DIR: &'static str = "/etc/k3rs";

/// Base directory for all k3rs persistent data (state, runtime, binaries, images).
pub const DATA_DIR: &'static str = "/var/lib/k3rs";

/// Base directory for all k3rs log files.
pub const LOG_DIR: &'static str = "/var/logs/k3rs";

// ---------------------------------------------------------------------------
// Container runtimes
// ---------------------------------------------------------------------------

/// Version of youki to download when not found in PATH.
pub const YOUKI_VERSION: &'static str = "v0.6.0";

/// Version of crun to download when not found in PATH.
pub const CRUN_VERSION: &'static str = "1.26";

/// Default OCI runtime name.
pub const DEFAULT_RUNTIME: &'static str = "youki";

/// Default vCPU count for micro-VMs.
pub const DEFAULT_CPU_COUNT: u32 = 1;

/// Default memory size in MiB for micro-VMs.
pub const DEFAULT_MEMORY_MB: u64 = 256;

// ---------------------------------------------------------------------------
// Virtual machines
// ---------------------------------------------------------------------------

/// vsock port used for exec communication between host and guest.
pub const VSOCK_EXEC_PORT: u32 = 5555;

/// virtiofs mount tag for the root filesystem.
pub const VIRTIOFS_TAG: &'static str = "rootfs";

/// Default hostname assigned to guest VMs.
pub const DEFAULT_VM_HOSTNAME: &'static str = "k3rs-guest";

/// Byte prefix that switches vsock exec into streaming PTY mode.
pub const VSOCK_STREAM_PREFIX: u8 = 0x01;

/// Kernel binary filename inside the kernel directory.
pub const KERNEL_FILENAME: &'static str = "vmlinux";

/// Initrd image filename inside the kernel directory.
pub const INITRD_FILENAME: &'static str = "initrd.img";

/// Path where k3rs-init is injected inside the guest rootfs.
pub const GUEST_INIT_PATH: &'static str = "sbin/k3rs-init";

/// OCI config.json path inside guest rootfs (read by k3rs-init).
pub const GUEST_CONFIG_PATH: &'static str = "config.json";

/// Guest rootfs mount point (for initrd-mode chroot).
pub const GUEST_ROOTFS_MOUNT: &'static str = "/mnt/rootfs";

/// eBPF filesystem pin directory for VPC programs.
pub const BPFFS_PIN_DIR: &'static str = "/sys/fs/bpf/k3rs_vpc";

// ---------------------------------------------------------------------------
// Network
// ---------------------------------------------------------------------------

/// Default port for the k3rs API server.
pub const DEFAULT_API_PORT: u16 = 6443;

/// Default API server address (HTTP).
pub const DEFAULT_API_ADDR: &'static str = "http://127.0.0.1:6443";

/// Default tunnel proxy port (agent-side).
pub const DEFAULT_TUNNEL_PORT: u16 = 6444;

/// Default agent API port (registered with the control plane).
pub const DEFAULT_AGENT_API_PORT: u16 = 10250;

/// Default service proxy / kube-proxy port.
pub const DEFAULT_SERVICE_PROXY_PORT: u16 = 10256;

/// Default embedded DNS server port.
pub const DEFAULT_DNS_PORT: u16 = 5353;

/// Well-known DNS virtual IP assigned to the k3rs0 bridge.
/// Pods use this as their nameserver in `/etc/resolv.conf`.
pub const DNS_VIP: &'static str = "fd6b:3372::53";

/// ULA prefix encoding "k3rs": fd + 6b337273 → 0xfd6b3372 (truncated to 32 bits).
pub const PLATFORM_PREFIX: u32 = 0xfd6b_3372;

/// Ghost IPv6 address version field (must be 1).
pub const GHOST_VERSION: u8 = 1;

/// VPC ID 0 is reserved (never assigned to user VPCs).
pub const RESERVED_VPC_ID: u16 = 0;

/// Default VPC ID for services without explicit VPC membership.
pub const DEFAULT_VPC_ID: u16 = 1;

/// State store key where the cluster's unique ID is persisted.
pub const CLUSTER_ID_KEY: &'static str = "/registry/cluster/id";

/// Network bridge interface name for pod-to-pod traffic.
pub const BRIDGE_NAME: &'static str = "k3rs0";

/// Link-local IPv6 gateway assigned to the bridge.
pub const BRIDGE_GATEWAY_IPV6: &'static str = "fe80::1";

/// Cluster IP subnet prefix for Service VIPs.
pub const CLUSTER_IP_PREFIX: &'static str = "10.43.0.";

/// Default VPC name for resources without explicit VPC membership.
pub const DEFAULT_VPC_NAME: &'static str = "default";

/// Local container registry exception (plain HTTP allowed).
pub const LOCAL_REGISTRY: &'static str = "localhost:5000";

/// Default OpenTelemetry OTLP gRPC endpoint.
pub const DEFAULT_OTEL_ENDPOINT: &'static str = "http://localhost:4317";

/// GitHub repository for binary releases.
pub const GITHUB_REPO: &'static str = "AssetsArt/k3rs";

/// Interface name assigned inside the container network namespace.
pub const GUEST_IFACE: &'static str = "eth0";

/// Netkit host-side device name prefix (followed by truncated pod ID).
pub const NETKIT_HOST_PREFIX: &'static str = "nk-";

/// Netkit temporary peer name prefix (moved into netns, then renamed to GUEST_IFACE).
pub const NETKIT_PEER_PREFIX: &'static str = "nktmp-";

/// Link-local IPv4 gateway used inside pod netns for NAT64 / SIIT routing.
pub const POD_IPV4_GATEWAY: &'static str = "169.254.1.1";

/// DNS `ndots` option written to pod `/etc/resolv.conf`.
pub const DNS_NDOTS: u8 = 5;

/// Default WireGuard interface name.
pub const WG_INTERFACE: &'static str = "wg-k3rs";

/// Default WireGuard listen port.
pub const WG_DEFAULT_PORT: u16 = 51820;

/// Default path for WireGuard key storage.
pub const WG_DEFAULT_KEY_PATH: &'static str = "/var/lib/k3rs/wireguard";

/// The Ghost IPv6 prefix route added to the WireGuard interface.
/// Covers all pods on all nodes in all VPCs (fd6b:3372::/32).
pub const GHOST_ROUTE_PREFIX: &'static str = "fd6b:3372::/32";

// ---------------------------------------------------------------------------
// DNS
// ---------------------------------------------------------------------------

/// DNS query type: A record (IPv4).
pub const QTYPE_A: u16 = 1;

/// DNS query type: AAAA record (IPv6).
pub const QTYPE_AAAA: u16 = 28;

/// Default DNS domain suffix for internal service discovery.
pub const DNS_DOMAIN_SUFFIX: &'static str = "svc.cluster.local";

/// Default upstream DNS resolver address.
pub const DEFAULT_UPSTREAM_DNS: &'static str = "8.8.8.8:53";

/// Timeout for forwarding queries to the upstream DNS resolver.
pub const UPSTREAM_DNS_TIMEOUT_SECS: u64 = 2;

// ---------------------------------------------------------------------------
// State store
// ---------------------------------------------------------------------------

/// etcd-style key for the controller leader lease.
pub const LEADER_LEASE_KEY: &'static str = "/registry/leases/controller-leader";

/// How long a leader lease is valid, in seconds.
pub const LEADER_LEASE_TTL_SECS: u64 = 15;

/// The lease is renewed every `TTL / LEADER_RENEW_INTERVAL_DIVISOR` seconds.
pub const LEADER_RENEW_INTERVAL_DIVISOR: u64 = 3;

// ---------------------------------------------------------------------------
// Intervals and limits
// ---------------------------------------------------------------------------

/// Heartbeat poll interval when connected (seconds).
pub const HEARTBEAT_INTERVAL_SECS: u64 = 10;

/// Heartbeat HTTP request timeout (seconds).
pub const HEARTBEAT_TIMEOUT_SECS: u64 = 5;

/// Reconnect loop idle sleep when already connected (seconds).
pub const RECONNECT_IDLE_SECS: u64 = 5;

/// DeploymentController reconciliation interval (seconds).
pub const DEPLOYMENT_CHECK_INTERVAL_SECS: u64 = 10;

/// EvictionController check interval (seconds).
pub const EVICTION_CHECK_INTERVAL_SECS: u64 = 30;

/// Grace period before evicting pods from an Unknown node (seconds).
pub const EVICTION_GRACE_PERIOD_SECS: u64 = 300;

/// HPAController reconciliation interval (seconds).
pub const HPA_CHECK_INTERVAL_SECS: u64 = 30;

/// CronJobController reconciliation interval (seconds).
pub const CRONJOB_CHECK_INTERVAL_SECS: u64 = 30;

/// Watchdog process-alive poll interval (seconds).
pub const WATCHDOG_POLL_INTERVAL_SECS: u64 = 2;

/// Maximum exponential backoff delay (seconds).
pub const BACKOFF_MAX_SECS: u64 = 30;

/// Maximum shift exponent for exponential backoff (prevents u64 overflow).
pub const BACKOFF_SHIFT_CAP: u32 = 30;

/// Default backup interval (seconds).
pub const DEFAULT_BACKUP_INTERVAL_SECS: u64 = 3600;

/// Default number of backup files to retain.
pub const DEFAULT_BACKUP_RETENTION: usize = 5;

/// Systemd restart delay (seconds).
pub const SYSTEMD_RESTART_SECS: u64 = 5;

// ---------------------------------------------------------------------------
// Lists
// ---------------------------------------------------------------------------

/// NAT64 well-known prefix (first 12 bytes): `64:ff9b::/96` (RFC 6052).
pub fn nat64_prefix() -> (r: [u8; 12])
    ensures
        r@ == seq![0x00u8, 0x64, 0xff, 0x9b, 0, 0, 0, 0, 0, 0, 0, 0],
{
    let r: [u8; 12] = [0x00, 0x64, 0xff, 0x9b, 0, 0, 0, 0, 0, 0, 0, 0];
    assert(r@ =~= seq![0x00u8, 0x64, 0xff, 0x9b, 0, 0, 0, 0, 0, 0, 0, 0]);
    r
}

/// The Linux capabilities that each component needs.
pub open spec fn component_caps(key: Seq<char>) -> Seq<Seq<char>> {
    if key == "server"@ {
        seq!["CAP_NET_BIND_SERVICE"@]
    } else if key == "agent"@ {
        seq![
            "CAP_NET_ADMIN"@,
            "CAP_NET_RAW"@,
            "CAP_SYS_ADMIN"@,
            "CAP_SYS_PTRACE"@,
            "CAP_DAC_OVERRIDE"@,
        ]
    } else if key == "vpc"@ {
        seq!["CAP_NET_ADMIN"@, "CAP_BPF"@, "CAP_SYS_ADMIN"@, "CAP_PERFMON"@]
    } else {
        Seq::empty()
    }
}

/// Get capabilities for a component by its registry key.
pub fn caps_for_component(key: &str) -> (r: Vec<&'static str>)
    ensures
        r.deep_view() == component_caps(key@),
{
    let mut out: Vec<&'static str> = Vec::new();
    if str_eq(key, "server") {
        out.push("CAP_NET_BIND_SERVICE");
    } else if str_eq(key, "agent") {
        out.push("CAP_NET_ADMIN");
        out.push("CAP_NET_RAW");
        out.push("CAP_SYS_ADMIN");
        out.push("CAP_SYS_PTRACE");
        out.push("CAP_DAC_OVERRIDE");
    } else if str_eq(key, "vpc") {
        out.push("CAP_NET_ADMIN");
        out.push("CAP_BPF");
        out.push("CAP_SYS_ADMIN");
        out.push("CAP_PERFMON");
    }
    assert(out.deep_view() =~= component_caps(key@));
    out
}

/// The server may bind low ports and nothing else; the agent and the network part may
/// administer the network and the system, only the agent may trace processes and only
/// the network part may load programs into the kernel; nothing else is granted anything.
pub proof fn law_capabilities(key: &str, r: Vec<&'static str>)
    requires
        call_ensures(caps_for_component, (key,), r),
    ensures
        key@ != "server"@ && key@ != "agent"@ && key@ != "vpc"@ ==> r.len() == 0,
        key@ == "server"@ ==> r.len() == 1 && r[0]@ == "CAP_NET_BIND_SERVICE"@,
        r.deep_view().contains("CAP_NET_ADMIN"@) <==> key@ == "agent"@ || key@ == "vpc"@,
        r.deep_view().contains("CAP_SYS_ADMIN"@) <==> key@ == "agent"@ || key@ == "vpc"@,
        r.deep_view().contains("CAP_SYS_PTRACE"@) <==> key@ == "agent"@,
        r.deep_view().contains("CAP_BPF"@) <==> key@ == "vpc"@,
{
    reveal_strlit("server");
    reveal_strlit("agent");
    reveal_strlit("vpc");
    reveal_strlit("CAP_NET_BIND_SERVICE");
    reveal_strlit("CAP_NET_ADMIN");
    reveal_strlit("CAP_NET_RAW");
    reveal_strlit("CAP_SYS_ADMIN");
    reveal_strlit("CAP_SYS_PTRACE");
    reveal_strlit("CAP_DAC_OVERRIDE");
    reveal_strlit("CAP_BPF");
    reveal_strlit("CAP_PERFMON");
    assert("CAP_NET_ADMIN"@[4] != "CAP_SYS_ADMIN"@[4]);
    assert("server"@.len() == 6 && "agent"@.len() == 5 && "vpc"@.len() == 3);
    assert("CAP_NET_BIND_SERVICE"@.len() == 20 && "CAP_NET_ADMIN"@.len() == 13);
    assert("CAP_NET_RAW"@.len() == 11 && "CAP_SYS_ADMIN"@.len() == 13);
    assert("CAP_SYS_PTRACE"@.len() == 14 && "CAP_DAC_OVERRIDE"@.len() == 16);
    assert("CAP_BPF"@.len() == 7 && "CAP_PERFMON"@.len() == 11);
    let c = r.deep_view();
    assert(c.len() == r.len());
    if key@ == "server"@ {
        assert(c[0] == r[0]@);
    } else if key@ == "agent"@ {
        assert(c[0] == "CAP_NET_ADMIN"@ && c[2] == "CAP_SYS_ADMIN"@ && c[3] == "CAP_SYS_PTRACE"@);
    } else if key@ == "vpc"@ {
        assert(c[0] == "CAP_NET_ADMIN"@ && c[1] == "CAP_BPF"@ && c[2] == "CAP_SYS_ADMIN"@);
    }
}

} // verus!
