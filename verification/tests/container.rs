//! Container runtimes: configuration, bundles, images and tracked state.
use std::hash::{Hash, Hasher};

use k3rs::collections::Labels;
use k3rs::container::backend::{OciBackend, RuntimeBackend};
use k3rs::container::image::{
    linux_platform_resolver, names_layer, sort_by_size, CachedImage, ImageInfo, ImageManager,
    IndexEntry,
};
use k3rs::container::installer::{RuntimeInstaller, RuntimeSource, RuntimeStep};
use k3rs::container::kernel::{image_arch, KernelManager, Provision};
use k3rs::container::rootfs::{
    layers_to_extract, parse_image_config, parse_image_env, parse_image_workdir, unpack_entry,
    unpack_failure, NetworkMode, RootfsManager,
};
use k3rs::container::runtime::{after_failure, first_attempt, Attempt, ContainerRuntime};
use k3rs::container::size::{format_file_size, format_size};
use k3rs::container::state::{ContainerState, ContainerStateInfo, ContainerStore};
use k3rs::container::virt::{
    parse_ls, parse_pgrep, parse_state, stop_plan, vmm_candidates, which_vmm, StopPlan,
    VirtualizationBackend,
};
use k3rs::container::vm::{
    bundle_rootfs, command_or_shell, guest_config_text, guest_env, init_candidates,
    parse_bundle_config, pick_present, resolv_conf, vm_logs, VmConfig, VmState, VmTable,
};

fn strings(items: &[&str]) -> Vec<String> {
    items.iter().map(|s| s.to_string()).collect()
}

fn labels(items: &[(&str, &str)]) -> Labels {
    let mut l = Labels::new();
    for (k, v) in items {
        l.insert(k.to_string(), v.to_string());
    }
    l
}

fn parsed(text: &str) -> serde_json::Value {
    serde_json::from_str(text).unwrap()
}

// Configuration of a container

#[test]
fn test_generate_config_defaults() {
    let config_str =
        RootfsManager::generate_config("test-container", "/tmp/rootfs", &vec![], &Labels::new())
            .unwrap();
    let config = parsed(&config_str);

    assert_eq!(config["ociVersion"], "1.0.2");
    assert_eq!(config["process"]["args"][0], "/bin/sh");
    assert_eq!(config["hostname"], "test-container");

    let caps = config["process"]["capabilities"]["bounding"]
        .as_array()
        .unwrap();
    assert!(caps.iter().any(|c| c == "CAP_NET_BIND_SERVICE"));
    assert!(caps.iter().any(|c| c == "CAP_CHOWN"));
    assert!(config["process"]["rlimits"].is_array());
    assert_eq!(config["process"]["rlimits"][0]["type"], "RLIMIT_NOFILE");
    assert_eq!(config["process"]["noNewPrivileges"], true);
}

#[test]
fn test_generate_config_with_command() {
    let command = vec![
        "nginx".to_string(),
        "-g".to_string(),
        "daemon off;".to_string(),
    ];
    let config_str =
        RootfsManager::generate_config("nginx-pod", "/tmp/rootfs", &command, &Labels::new())
            .unwrap();
    let config = parsed(&config_str);
    assert_eq!(config["process"]["args"][0], "nginx");
    assert_eq!(config["process"]["args"][1], "-g");
    assert_eq!(config["process"]["args"][2], "daemon off;");
}

#[test]
fn test_generate_config_with_env() {
    let mut env = Labels::new();
    env.insert("MY_VAR".to_string(), "hello".to_string());
    env.insert("DB_HOST".to_string(), "localhost".to_string());

    let config_str =
        RootfsManager::generate_config("env-test", "/tmp/rootfs", &vec![], &env).unwrap();
    let config = parsed(&config_str);
    let env_arr = config["process"]["env"].as_array().unwrap();
    let env_strs: Vec<String> = env_arr
        .iter()
        .map(|v| v.as_str().unwrap().to_string())
        .collect();
    assert!(env_strs.iter().any(|e| e == "MY_VAR=hello"));
    assert!(env_strs.iter().any(|e| e == "DB_HOST=localhost"));
}

#[test]
fn test_generate_config_mounts() {
    let config_str =
        RootfsManager::generate_config("mount-test", "/tmp/rootfs", &vec![], &Labels::new())
            .unwrap();
    let config = parsed(&config_str);
    let mounts = config["mounts"].as_array().unwrap();
    let mount_dests: Vec<&str> = mounts
        .iter()
        .map(|m| m["destination"].as_str().unwrap())
        .collect();

    assert!(mount_dests.contains(&"/proc"));
    assert!(mount_dests.contains(&"/dev"));
    assert!(mount_dests.contains(&"/dev/pts"));
    assert!(mount_dests.contains(&"/dev/shm"));
    assert!(mount_dests.contains(&"/dev/mqueue"));
    assert!(mount_dests.contains(&"/sys"));
    assert!(mount_dests.contains(&"/sys/fs/cgroup"));
}

#[test]
fn test_generate_config_security() {
    let config_str =
        RootfsManager::generate_config("sec-test", "/tmp/rootfs", &vec![], &Labels::new())
            .unwrap();
    let config = parsed(&config_str);

    let masked = config["linux"]["maskedPaths"].as_array().unwrap();
    let masked_strs: Vec<&str> = masked.iter().map(|v| v.as_str().unwrap()).collect();
    assert!(masked_strs.contains(&"/proc/kcore"));
    assert!(masked_strs.contains(&"/proc/keys"));

    let readonly = config["linux"]["readonlyPaths"].as_array().unwrap();
    let readonly_strs: Vec<&str> = readonly.iter().map(|v| v.as_str().unwrap()).collect();
    assert!(readonly_strs.contains(&"/proc/bus"));
    assert!(readonly_strs.contains(&"/proc/sys"));

    let namespaces = config["linux"]["namespaces"].as_array().unwrap();
    let ns_types: Vec<&str> = namespaces
        .iter()
        .map(|n| n["type"].as_str().unwrap())
        .collect();
    assert!(ns_types.contains(&"pid"));
    assert!(ns_types.contains(&"mount"));
}

#[test]
fn test_generate_config_host_networking() {
    let config_str = RootfsManager::generate_config_full(
        "host-net",
        "/tmp/rootfs",
        &vec![],
        &Labels::new(),
        None,
        None,
        NetworkMode::Host,
    )
    .unwrap();
    let config = parsed(&config_str);
    let namespaces = config["linux"]["namespaces"].as_array().unwrap();
    let ns_types: Vec<&str> = namespaces
        .iter()
        .map(|n| n["type"].as_str().unwrap())
        .collect();
    assert!(!ns_types.contains(&"network"));
}

#[test]
fn test_generate_config_isolated_networking() {
    let config_str = RootfsManager::generate_config_full(
        "iso-net",
        "/tmp/rootfs",
        &vec![],
        &Labels::new(),
        None,
        None,
        NetworkMode::Isolated,
    )
    .unwrap();
    let config = parsed(&config_str);
    let namespaces = config["linux"]["namespaces"].as_array().unwrap();
    let ns_types: Vec<&str> = namespaces
        .iter()
        .map(|n| n["type"].as_str().unwrap())
        .collect();
    assert!(ns_types.contains(&"network"));
}

#[test]
fn test_generate_config_with_workdir() {
    let config_str = RootfsManager::generate_config_full(
        "workdir-test",
        "/tmp/rootfs",
        &vec![],
        &Labels::new(),
        None,
        Some("/app"),
        NetworkMode::default(),
    )
    .unwrap();
    let config = parsed(&config_str);
    assert_eq!(config["process"]["cwd"], "/app");
}

#[test]
fn image_supplies_command_environment_and_directory() {
    let image = r#"{"config":{"Entrypoint":["/init"],"Cmd":["serve","-v"],"Env":["LANG=C","HOME=/srv"],"WorkingDir":"/srv"}}"#;
    assert_eq!(
        parse_image_config(Some(image)),
        (strings(&["/init"]), strings(&["serve", "-v"]))
    );
    assert_eq!(parse_image_env(Some(image)), strings(&["LANG=C", "HOME=/srv"]));
    assert_eq!(parse_image_workdir(Some(image)), Some("/srv".to_string()));
    assert_eq!(parse_image_config(Some("not json")), (vec![], vec![]));
    assert_eq!(parse_image_env(None), Vec::<String>::new());
    assert_eq!(parse_image_workdir(None), None);

    let config_str = RootfsManager::generate_config_full(
        "web",
        "/tmp/rootfs",
        &vec![],
        &labels(&[("LANG", "de")]),
        Some(image),
        None,
        NetworkMode::Host,
    )
    .unwrap();
    let config = parsed(&config_str);
    assert_eq!(config["process"]["args"][0], "/init");
    assert_eq!(config["process"]["args"][1], "serve");
    assert_eq!(config["process"]["args"][2], "-v");
    assert_eq!(config["process"]["cwd"], "/srv");
    let env: Vec<&str> = config["process"]["env"]
        .as_array()
        .unwrap()
        .iter()
        .map(|e| e.as_str().unwrap())
        .collect();
    assert!(env.contains(&"LANG=de"));
    assert!(!env.contains(&"LANG=C"));
    assert!(env.contains(&"HOME=/srv"));
}

#[test]
fn config_is_the_pretty_text_of_its_value() {
    let config_str =
        RootfsManager::generate_config("c", "/r", &strings(&["ls"]), &Labels::new()).unwrap();
    let again = serde_json::to_string_pretty(&parsed(&config_str)).unwrap();
    assert_eq!(config_str, again);
}

// Unpacking layers

#[test]
fn entries_are_unpacked_below_the_root() {
    assert_eq!(unpack_entry("/r", "bin/sh"), Some("/r/bin/sh".to_string()));
    assert_eq!(unpack_entry("/r", "etc/.wh.passwd"), None);
    assert_eq!(unpack_failure(true, "/r/x", "exists"), None);
    assert_eq!(
        unpack_failure(false, "/r/x", "denied"),
        Some("failed to unpack `/r/x`: denied".to_string())
    );
}

#[test]
fn layers_come_in_the_order_of_their_names() {
    let files = strings(&["layer_1.tar.gz", "notes.txt", "layer_0.tar.gz", ".gz"]);
    assert_eq!(
        layers_to_extract("/i/layers", Some(&files)).unwrap(),
        strings(&["layer_0.tar.gz", "layer_1.tar.gz"])
    );
    assert_eq!(
        layers_to_extract("/i/layers", None).unwrap_err(),
        "No layers directory found at /i/layers"
    );
}

// Tracked containers

#[test]
fn test_track_and_get() {
    let mut store = ContainerStore::new();
    store.track("c1", "alpine:latest", "youki", "/tmp/bundle/c1", "/tmp/logs/c1.log");

    let entry = store.get("c1").expect("should find container");
    assert_eq!(entry.id, "c1");
    assert_eq!(entry.image, "alpine:latest");
    assert_eq!(entry.runtime_name, "youki");
    assert_eq!(entry.state, ContainerState::Created);
    assert!(entry.pid.is_none());
    assert!(entry.started_at.is_none());
}

#[test]
fn test_state_transitions() {
    let mut store = ContainerStore::new();
    store.track("c2", "nginx:latest", "crun", "/tmp/bundle/c2", "/tmp/logs/c2.log");

    // Created → Running
    assert!(store.update_state("c2", ContainerState::Running));
    let entry = store.get("c2").unwrap();
    assert_eq!(entry.state, ContainerState::Running);
    assert!(entry.started_at.is_some());

    // Running → Stopped
    assert!(store.update_state("c2", ContainerState::Stopped));
    let entry = store.get("c2").unwrap();
    assert_eq!(entry.state, ContainerState::Stopped);
    assert!(entry.finished_at.is_some());
}

#[test]
fn test_failed_state() {
    let mut store = ContainerStore::new();
    store.track("c3", "bad:image", "youki", "/tmp/bundle/c3", "/tmp/logs/c3.log");

    let reason = "OCI runtime error: exec format error".to_string();
    assert!(store.update_state("c3", ContainerState::Failed(reason.clone())));

    let entry = store.get("c3").unwrap();
    assert_eq!(entry.state, ContainerState::Failed(reason));
    assert!(entry.finished_at.is_some());
}

#[test]
fn test_pid_and_exit_code() {
    let mut store = ContainerStore::new();
    store.track("c4", "alpine:latest", "youki", "/tmp/bundle/c4", "/tmp/logs/c4.log");

    store.set_pid("c4", 12345);
    assert_eq!(store.get("c4").unwrap().pid, Some(12345));

    store.set_exit_code("c4", 0);
    assert_eq!(store.get("c4").unwrap().exit_code, Some(0));
}

#[test]
fn test_remove() {
    let mut store = ContainerStore::new();
    store.track("c5", "alpine:latest", "youki", "/tmp/bundle/c5", "/tmp/logs/c5.log");
    assert_eq!(store.len(), 1);

    let removed = store.remove("c5");
    assert!(removed.is_some());
    assert_eq!(store.len(), 0);
    assert!(store.get("c5").is_none());
}

#[test]
fn test_list() {
    let mut store = ContainerStore::new();
    store.track("a1", "img1", "youki", "/b/a1", "/l/a1");
    store.track("a2", "img2", "crun", "/b/a2", "/l/a2");
    store.track("a3", "img3", "youki", "/b/a3", "/l/a3");

    let all = store.list();
    assert_eq!(all.len(), 3);
}

#[test]
fn test_update_nonexistent() {
    let mut store = ContainerStore::new();
    assert!(!store.update_state("nope", ContainerState::Running));
}

#[test]
fn listing_holds_every_tracked_container() {
    let mut store = ContainerStore::default();
    assert!(store.is_empty());
    store.track_at("a", "i", "r", "/b", "/l", 7);
    store.track_at("b", "i", "r", "/b", "/l", 8);
    store.track_at("a", "j", "r", "/b", "/l", 9);
    let mut seen: Vec<(String, String, i128)> = store
        .list()
        .into_iter()
        .map(|e| (e.id, e.image, e.created_at))
        .collect();
    seen.sort();
    assert_eq!(
        seen,
        vec![
            ("a".to_string(), "j".to_string(), 9),
            ("b".to_string(), "i".to_string(), 8)
        ]
    );
    assert!(!store.is_empty());
}

#[test]
fn times_follow_the_state() {
    let mut store = ContainerStore::new();
    store.track_at("a", "i", "r", "/b", "/l", 1);
    assert!(store.update_state_at("a", ContainerState::Running, 2));
    assert!(store.update_state_at("a", ContainerState::Failed("x".to_string()), 3));
    let e = store.get("a").unwrap();
    assert_eq!((e.created_at, e.started_at, e.finished_at), (1, Some(2), Some(3)));
    assert_eq!(e.bundle_path, "/b");
    assert_eq!(e.log_path, "/l");
    assert_eq!(e.state.describe(), "failed: x");
    assert_eq!(ContainerState::Created.describe(), "created");
    store.set_pid("none", 4);
    store.set_exit_code("none", 4);
    assert_eq!(store.len(), 1);
    assert!(store.remove("none").is_none());
}

// The runtime around the store

#[test]
fn containers_found_at_start_are_tracked() {
    let mut rt = ContainerRuntime::new(Some("/d"), "youki", "0.6", false);
    let found = vec![
        (
            "a".to_string(),
            Some(ContainerStateInfo {
                id: "a".to_string(),
                status: "running".to_string(),
                pid: 17,
                bundle: "/b/a".to_string(),
            }),
        ),
        ("b".to_string(), None),
    ];
    let ids = rt.discover_at(&found, 5);
    assert_eq!(ids, strings(&["a"]));
    let e = rt.container_store().get("a").unwrap();
    assert_eq!(e.state, ContainerState::Running);
    assert_eq!(e.pid, Some(17));
    assert!(rt.container_store().get("b").is_none());
    assert_eq!(rt.backend_name(), "youki");
    assert_eq!(rt.runtime_info().version, "0.6");
}

#[test]
fn life_of_a_container() {
    let mut rt = ContainerRuntime::new(None, "crun", "1.26", false);
    assert_eq!(ContainerRuntime::data_dir_or_default(Some("/x")), "/x");
    rt.created_at("a", "alpine", 1);
    assert_eq!(rt.store.get("a").unwrap().state, ContainerState::Created);
    rt.started_at("a", 2);
    assert_eq!(rt.store.get("a").unwrap().started_at, Some(2));
    rt.stopped_at("a", 3);
    assert_eq!(rt.store.get("a").unwrap().finished_at, Some(3));
    rt.mark_failed("a", "gone");
    assert_eq!(
        rt.store.get("a").unwrap().state,
        ContainerState::Failed("gone".to_string())
    );
    let dir = rt.container_dir("a");
    assert_eq!(rt.cleanup_container("a"), dir);
    assert!(rt.store.get("a").is_none());
}

#[test]
fn attempts_end_with_an_error() {
    assert_eq!(first_attempt(true), Attempt::Virtualization);
    assert_eq!(first_attempt(false), Attempt::Oci);
    assert_eq!(
        after_failure(false, Attempt::Oci, "", "none").unwrap(),
        Attempt::Download
    );
    assert!(after_failure(false, Attempt::Download, "none", "offline").is_err());
}

// OCI backend

#[test]
fn oci_backend_speaks_to_its_runtime() {
    let b = OciBackend::new("/usr/bin/youki", "/d", Some("  youki version 0.6\nmore"));
    assert_eq!(b.name(), "youki");
    assert_eq!(b.version(), "youki version 0.6");
    assert!(!b.handles_images());
    assert_eq!(b.container_log_path("a"), "/d/logs/a/stdout.log");
    assert_eq!(b.container_pid_file("a"), "/d/logs/a/container.pid");
    assert_eq!(b.start_command("a"), strings(&["--root", "/d/state", "start", "a"]));
    assert_eq!(b.create_from_image("c", "busybox"), b.create_command("c", "busybox"));
    assert!(b.create_from_image("c", "busybox").contains(&"busybox".to_string()));
    assert_eq!(OciBackend::read_pid(Some(" 42\n")), Some(42));
    assert_eq!(OciBackend::read_pid(Some("x")), None);
    assert_eq!(OciBackend::parse_list("a\n\n b \n"), strings(&["a", "b"]));
    assert_eq!(b.failure("start", "a", " no \n"), "[youki] start failed for a: no");
    assert_eq!(b.exec_result("a", true, "out", "").unwrap(), "out");
    assert_eq!(
        b.exec_result("a", false, "o", "e").unwrap_err(),
        "[youki] exec failed in a: oe"
    );
    assert_eq!(b.logs("a", Some("1\n2\n3\n"), 2), strings(&["2", "3"]));
    assert_eq!(
        b.logs("a", None, 2),
        strings(&["[youki] No logs available for container a (log path: /d/logs/a/stdout.log)"])
    );
    assert_eq!(OciBackend::new("..", "/d", None).name(), "unknown");
    let told = |ok: bool, out: &str| (ok, out.to_string());
    assert_eq!(
        OciBackend::detect(&vec![told(false, ""), told(true, "/bin/crun\n")]).unwrap(),
        ("crun".to_string(), "/bin/crun".to_string())
    );
    assert_eq!(
        OciBackend::detect(&vec![told(true, "/a/youki"), told(true, "/bin/crun")]).unwrap().0,
        "youki"
    );
    assert_eq!(
        OciBackend::detect(&vec![told(false, ""), told(false, "")]).unwrap_err(),
        "No OCI runtime found in PATH. Install youki or crun."
    );
    let f = OciBackend::found("crun", "/bin/crun\n", "/d", None);
    assert_eq!((f.name(), f.version()), ("crun".to_string(), "unknown".to_string()));
}

#[test]
fn oci_state_is_read_from_json() {
    let s = OciBackend::parse_state(
        r#"{"id":"a","status":"running","pid":4294967303,"bundle":"/b"}"#,
        "z",
    )
    .unwrap();
    assert_eq!(
        (s.id.as_str(), s.status.as_str(), s.pid, s.bundle.as_str()),
        ("a", "running", 7, "/b")
    );
    let t = OciBackend::parse_state("{}", "z").unwrap();
    assert_eq!(
        (t.id.as_str(), t.status.as_str(), t.pid, t.bundle.as_str()),
        ("z", "unknown", 0, "")
    );
    assert!(OciBackend::parse_state("nonsense", "z").is_none());
}

// Images

fn image(id: &str, size: u64) -> ImageInfo {
    ImageInfo {
        id: id.to_string(),
        node_name: String::new(),
        size,
        size_human: format_size(size),
        layers: 1,
        architecture: "amd64".to_string(),
        os: "linux".to_string(),
        created: String::new(),
    }
}

#[test]
fn images_are_listed_by_size() {
    let sorted = sort_by_size(&vec![image("a", 1), image("b", 3), image("c", 3), image("d", 2)]);
    let ids: Vec<&str> = sorted.iter().map(|i| i.id.as_str()).collect();
    assert_eq!(ids, vec!["b", "c", "d", "a"]);

    let found = vec![
        CachedImage {
            name: "alpine".to_string(),
            config: Some(
                r#"{"architecture":"arm64","os":"linux","created":"2024-01-01T00:00:00Z"}"#
                    .to_string(),
            ),
            layer_sizes: vec![1000, 536],
        },
        CachedImage {
            name: "big".to_string(),
            config: None,
            layer_sizes: vec![5 * 1024 * 1024],
        },
    ];
    let all = ImageManager::list_images(&found);
    assert_eq!(all[0].id, "big");
    assert_eq!(all[0].architecture, "unknown");
    assert_eq!(all[0].size_human, "5.0 MB");
    assert_eq!(all[1].architecture, "arm64");
    assert_eq!(all[1].created, "2024-01-01T00:00:00Z");
    assert_eq!(all[1].size, 1536);
    assert_eq!(all[1].size_human, "2 KB");
    assert_eq!(all[1].layers, 2);
}

#[test]
fn image_directories_go_by_the_hash_of_the_reference() {
    let m = ImageManager::new("/d");
    let dir = m.image_dir("alpine:latest");
    let mut h = std::collections::hash_map::DefaultHasher::new();
    "alpine:latest".hash(&mut h);
    assert_eq!(dir, format!("/d/images/{:x}", h.finish()));
    assert_ne!(dir, m.image_dir("alpine:3"));
    assert_eq!(m.get_cached("alpine:latest", true), Some(dir));
    assert_eq!(m.get_cached("alpine:latest", false), None);
}

#[test]
fn references_are_read_before_a_pull() {
    let m = ImageManager::new("/d");
    let p = m
        .pull("docker.io/library/alpine:latest", true, &strings(&["layer_0.tar.gz"]))
        .unwrap();
    assert!(p.cached);
    assert_eq!(p.image_dir, m.image_dir("docker.io/library/alpine:latest"));
    assert!(!m.pull("alpine", true, &strings(&["readme"])).unwrap().cached);
    let e = m.pull("UPPER CASE", false, &vec![]).unwrap_err();
    assert!(e.starts_with("Invalid image reference 'UPPER CASE': "));
    let cause: Result<oci_client::Reference, _> = "UPPER CASE".parse();
    assert!(e.ends_with(&cause.unwrap_err().to_string()));
}

#[test]
fn image_files() {
    assert_eq!(ImageManager::layer_path("/i/layers", 3), "/i/layers/layer_3.tar.gz");
    assert!(names_layer("a.gz"));
    assert!(!names_layer(".gz"));
    let m = ImageManager::new("/d");
    assert_eq!(m.delete_image("x", true).unwrap(), "/d/images/x");
    assert_eq!(m.delete_image("x", false).unwrap_err(), "Image x not found");
}

#[test]
fn linux_images_are_picked() {
    let entry = |d: &str, os: &str, arch: &str| IndexEntry {
        digest: d.to_string(),
        platform: Some((os.to_string(), arch.to_string())),
    };
    let index = vec![
        entry("w", "windows", "amd64"),
        entry("a", "linux", "arm64"),
        entry("l", "linux", "amd64"),
    ];
    assert_eq!(linux_platform_resolver(&index, "x86_64"), Some("l".to_string()));
    assert_eq!(linux_platform_resolver(&index, "aarch64"), Some("a".to_string()));
    assert_eq!(linux_platform_resolver(&index, "riscv64"), Some("a".to_string()));
    assert_eq!(
        linux_platform_resolver(&vec![entry("w", "windows", "amd64")], "x86_64"),
        None
    );
}

#[test]
fn sizes_read_as_the_float_formatting_does() {
    let file = |n: u64| -> String {
        if n >= 1_000_000 {
            format!("{:.1} MB", n as f64 / 1_048_576.0)
        } else if n >= 1_000 {
            format!("{:.0} KB", n as f64 / 1_024.0)
        } else {
            format!("{} B", n)
        }
    };
    let shown = |n: u64| -> String {
        if n >= 1_000_000_000 {
            format!("{:.1} GB", n as f64 / 1_073_741_824.0)
        } else {
            file(n)
        }
    };
    let mut n: u64 = 1;
    for k in 0..3000u64 {
        assert_eq!(format_size(n), shown(n));
        assert_eq!(format_file_size(Some(n)), file(n));
        n = n
            .wrapping_mul(6364136223846793005)
            .wrapping_add(1442695040888963407)
            >> (k % 60);
    }
    for n in [0, 999, 1000, 1535, 1536, 1537, 2560, 999_999, 1_000_000, u64::MAX] {
        assert_eq!(format_size(n), shown(n));
        assert_eq!(format_file_size(Some(n)), file(n));
    }
    assert_eq!(format_file_size(None), "unknown");
}

// Kernels and runtimes to install

#[test]
fn test_kernel_manager_paths() {
    let km = KernelManager::new();
    assert_eq!(km.kernel_path(), "/var/lib/k3rs/vmlinux");
    assert_eq!(km.initrd_path(), "/var/lib/k3rs/initrd.img");
}

#[test]
fn test_kernel_manager_custom_dir() {
    let km = KernelManager::with_dir("/tmp/test-kernels");
    assert_eq!(km.kernel_path(), "/tmp/test-kernels/vmlinux");
    assert_eq!(km.initrd_path(), "/tmp/test-kernels/initrd.img");
}

#[test]
fn test_no_download_url_by_default() {
    let km = KernelManager::new();
    assert!(km.download_url.is_none());
}

#[test]
fn test_with_download_url() {
    let km = KernelManager::new().with_download_url("https://example.com/kernels");
    assert_eq!(
        km.download_url.as_deref(),
        Some("https://example.com/kernels")
    );
}

#[test]
fn kernels_are_provided() {
    let bare = KernelManager::with_dir("/k");
    assert!(matches!(bare.provide_kernel(true, "x86_64"), Provision::Present));
    assert!(matches!(bare.provide_kernel(false, "x86_64"), Provision::Missing));
    let km = KernelManager::with_dir("/k").with_download_url("https://h");
    match km.provide_kernel(false, "x86_64") {
        Provision::Download(u) => assert!(u.starts_with("https://h")),
        other => panic!("{:?}", other),
    }
    assert_eq!(
        km.ensure_available(true, false),
        ("/k/vmlinux".to_string(), None)
    );
    assert_eq!(image_arch("x86_64"), "amd64");
    assert_eq!(image_arch("aarch64"), "arm64");
}

#[test]
fn runtimes_are_searched_in_order() {
    assert_eq!(RuntimeInstaller::search_order(None), strings(&["youki", "crun"]));
    assert_eq!(
        RuntimeInstaller::search_order(Some("crun")),
        strings(&["crun", "youki"])
    );
    assert_eq!(
        RuntimeInstaller::search_order(Some("runc")),
        strings(&["runc", "youki", "crun"])
    );
    let told = |step: RuntimeStep| match step {
        RuntimeStep::Found(p) => format!("found {}", p),
        RuntimeStep::Download(n) => format!("download {}", n),
        RuntimeStep::NotFound => "none".to_string(),
    };
    let which = vec![(false, String::new()), (true, "/bin/youki\n".to_string())];
    let step = |present: &[bool], failed: usize| {
        told(RuntimeInstaller::ensure_runtime(Some("crun"), &which, "/i", &present.to_vec(), failed))
    };
    assert_eq!(step(&[true, false], 0), "found /i/crun");
    assert_eq!(step(&[false, true], 0), "download crun");
    assert_eq!(step(&[false, true], 1), "found /bin/youki");
    assert_eq!(step(&[false, true], 2), "none");
    let first = vec![(true, " /bin/youki\n".to_string()), (false, String::new())];
    let default = |failed: usize, present: &[bool]| {
        told(RuntimeInstaller::ensure_runtime(None, &first, "/i", &present.to_vec(), failed))
    };
    assert_eq!(default(0, &[true, true]), "found /bin/youki");
    assert_eq!(default(1, &[true, true]), "found /i/crun");
    assert_eq!(default(1, &[true, false]), "download crun");
}

#[test]
fn runtimes_are_downloaded() {
    match RuntimeInstaller::source("youki", "x86_64") {
        RuntimeSource::Archive(u) => assert_eq!(
            u,
            "https://github.com/youki-dev/youki/releases/download/v0.6.0/youki-0.6.0-x86_64-musl.tar.gz"
        ),
        other => panic!("{:?}", other),
    }
    match RuntimeInstaller::source("crun", "aarch64") {
        RuntimeSource::Binary(u) => assert_eq!(
            u,
            "https://github.com/containers/crun/releases/download/1.26/crun-1.26-linux-arm64"
        ),
        other => panic!("{:?}", other),
    }
    match RuntimeInstaller::source("crun", "mips") {
        RuntimeSource::Unsupported(e) => {
            assert_eq!(e, "Unsupported architecture for crun: mips")
        }
        other => panic!("{:?}", other),
    }
    assert!(matches!(
        RuntimeInstaller::source("runc", "x86_64"),
        RuntimeSource::NoBinary
    ));
}

#[test]
fn versions_are_recorded() {
    let first = RuntimeInstaller::save_version_info(None, "youki", "v1", 0, "x86_64").unwrap();
    let v = parsed(&first);
    assert_eq!(v["youki"]["version"], "v1");
    assert_eq!(v["youki"]["installed_at"], "1970-01-01T00:00:00+00:00");
    assert_eq!(v["youki"]["arch"], "x86_64");
    let second =
        RuntimeInstaller::save_version_info(Some(&first), "crun", "1.26", 0, "x86_64").unwrap();
    let w = parsed(&second);
    assert_eq!(w["youki"]["version"], "v1");
    assert_eq!(w["crun"]["version"], "1.26");
    let from_null =
        RuntimeInstaller::save_version_info(Some("null"), "crun", "1.26", 0, "a").unwrap();
    assert_eq!(parsed(&from_null)["crun"]["arch"], "a");
    assert_eq!(
        RuntimeInstaller::save_version_info(Some("3"), "crun", "1.26", 0, "a"),
        None
    );
    let read = RuntimeInstaller::get_installed_info(Some(&second)).unwrap();
    assert_eq!(
        read.get("crun").unwrap().get_str("version"),
        Some(&"1.26".to_string())
    );
    assert!(RuntimeInstaller::get_installed_info(Some("{")).is_none());
    let nothing = RuntimeInstaller::get_installed_info(None).unwrap();
    assert!(nothing.get("crun").is_none());
}

// Virtual machines

#[test]
fn test_vm_config_defaults() {
    let config = VmConfig::default();
    assert_eq!(config.cpu_count, 1);
    assert_eq!(config.memory_mb, 256);
}

fn bundle_text() -> String {
    let mut process = serde_json::Map::new();
    process.insert("args".to_string(), serde_json::Value::from(vec!["/bin/bash", "-l"]));
    process.insert(
        "env".to_string(),
        serde_json::Value::from(vec!["HOME=/root", "PATH=/bin"]),
    );
    let mut cfg = serde_json::Map::new();
    cfg.insert("process".to_string(), serde_json::Value::Object(process));
    serde_json::to_string(&serde_json::Value::Object(cfg)).unwrap()
}

#[test]
fn virt_test_parse_bundle_config_missing() {
    let (cmd, env) = parse_bundle_config(None);
    assert!(cmd.is_empty());
    assert!(env.is_empty());
}

#[test]
fn virt_test_parse_bundle_config_valid() {
    let (cmd, env) = parse_bundle_config(Some(&bundle_text()));
    assert_eq!(cmd, vec!["/bin/bash", "-l"]);
    assert_eq!(env, vec!["HOME=/root", "PATH=/bin"]);
}

#[test]
fn vm_utils_test_parse_bundle_config_missing() {
    let (cmd, env) = parse_bundle_config(None);
    assert!(cmd.is_empty());
    assert!(env.is_empty());
}

#[test]
fn vm_utils_test_parse_bundle_config_valid() {
    let (cmd, env) = parse_bundle_config(Some(&bundle_text()));
    assert_eq!(cmd, vec!["/bin/bash", "-l"]);
    assert_eq!(env, vec!["HOME=/root", "PATH=/bin"]);
}

#[test]
fn test_backend_new() {
    let backend =
        VirtualizationBackend::new("/tmp/k3rs-virt-new-test", true, Ok(("/k".to_string(), None)))
            .unwrap();
    assert_eq!(backend.name(), "vm");
    assert_eq!(backend.version(), "macos-vz-2.0");
    assert!(!backend.handles_images());
}

#[test]
fn virtualization_needs_macos_and_a_kernel() {
    assert!(VirtualizationBackend::new("/d", false, Ok(("/k".to_string(), None))).is_err());
    let b = VirtualizationBackend::new("/d", true, Ok(("/k".to_string(), None))).unwrap();
    assert_eq!(b.vm_config, VmConfig::default());
    let c = b.with_config(VmConfig { cpu_count: 2, memory_mb: 512 });
    assert_eq!(c.vm_config.cpu_count, 2);
}

#[test]
fn guest_configuration_holds_the_command() {
    let text = guest_config_text("vm-cfg-test", &strings(&["/bin/sh"]), &vec![]);
    let v = parsed(&text);
    assert_eq!(v["process"]["args"][0], "/bin/sh");
    assert_eq!(v["hostname"], "vm-cfg-test");
    assert_eq!(command_or_shell(&vec![]), strings(&["/bin/sh"]));
    assert_eq!(
        guest_env("a", &strings(&["TERM=vt100", "X=1", "X=2", "=y", "plain"])),
        strings(&[
            "PATH=/usr/local/sbin:/usr/local/bin:/usr/sbin:/usr/bin:/sbin:/bin",
            "HOSTNAME=a",
            "TERM=xterm",
            "X=1",
            "plain"
        ])
    );
}

#[test]
fn bundles_are_read_back() {
    let command = strings(&["/bin/run", "a \"b\"", "é"]);
    let mut user = Labels::new();
    user.insert("X".to_string(), "1=2".to_string());
    let text = RootfsManager::generate_config("c", "/r", &command, &user).unwrap();
    let (args, env) = parse_bundle_config(Some(&text));
    assert_eq!(args, command);
    assert!(env.contains(&"X=1=2".to_string()));
    assert!(env.contains(&"HOSTNAME=c".to_string()));
    let guest = guest_config_text("vm", &command, &strings(&["X=1"]));
    let (args, env) = parse_bundle_config(Some(&guest));
    assert_eq!(args, command);
    assert_eq!(env, guest_env("vm", &strings(&["X=1"])));
}

#[test]
fn helper_output_is_read() {
    assert_eq!(
        parse_ls("ID PID STATE\na 12 running\nb - running\nc 3 stopped\n"),
        vec![("a".to_string(), Some(12)), ("b".to_string(), None)]
    );
    assert_eq!(parse_state("x\nstate=running \n"), Some(true));
    assert_eq!(parse_state("state=stopped"), Some(false));
    assert_eq!(parse_state(""), None);
    assert_eq!(parse_pgrep("31\n32\n"), 31);
    assert_eq!(parse_pgrep("none"), 0);
    assert_eq!(stop_plan(true, Some(1)), StopPlan::Done);
    assert_eq!(stop_plan(false, Some(1)), StopPlan::Kill(1));
    assert_eq!(stop_plan(false, None), StopPlan::Nothing);
}

#[test]
fn life_of_a_machine() {
    let mut t = VmTable::new();
    t.create("a", "/r/a", "/l/a", 3);
    assert_eq!(t.get("a").unwrap().state, VmState::Created);
    assert!(!t.is_running("a"));
    t.start("a", Some(9), Some("tap0".to_string()));
    assert!(t.is_running("a"));
    assert_eq!(t.running(), strings(&["a"]));
    assert_eq!(t.report("a").unwrap().pid, 9);
    assert!(!t.recover("/d", "a", Some(1)));
    assert_eq!(t.get("a").unwrap().vmm_pid, Some(9));
    assert!(t.recover("/d", "b", Some(1)));
    assert!(t.is_running("b"));
    t.stop("a");
    assert_eq!(t.get("a").unwrap().state, VmState::Stopped);
    assert_eq!(t.running(), strings(&["b"]));
    assert!(t.delete("a").is_some());
    assert!(t.delete("a").is_none());
    assert!(t.report("a").is_none());
}

#[test]
fn deleted_machines_are_forgotten() {
    let mut b = VirtualizationBackend::new("/d", true, Ok(("/k".to_string(), None))).unwrap();
    b.rediscover(&vec![("a".to_string(), Some(4))]);
    assert!(b.instances.is_running("a"));
    assert_eq!(b.state("a", Some(true), 4).unwrap().status, "running");
    let (dirs, files) = b.delete("a");
    assert_eq!(dirs, strings(&["/d/vms/a-rootfs", "/d/vms/a-rootfs"]));
    assert_eq!(files, strings(&["/d/vms/a.log", "/d/vms/a.log"]));
    assert!(b.instances.get("a").is_none());
    assert!(b.prepare_start("a", true).is_err());
    assert_eq!(b.delete("a").0, strings(&["/d/vms/a-rootfs"]));
}

#[test]
fn helper_runs_machines() {
    let mut b = VirtualizationBackend::new("/d", true, Ok(("/k".to_string(), None))).unwrap();
    b.create("a", "/bundle/rootfs");
    assert_eq!(b.prepare_start("a", true).unwrap(), "/bundle/rootfs");
    assert_eq!(
        b.exec_ready("a", None, 0).unwrap_err(),
        "VM a is not running (status: created)"
    );
    b.started("a", Some(7));
    assert!(b.exec_ready("a", None, 0).is_ok());
    assert_eq!(b.stop_vm("a", false), StopPlan::Kill(7));
    assert_eq!(b.stop_vm("a", true), StopPlan::Done);
    b.stopped("a");
    assert_eq!(b.stop_vm("a", false), StopPlan::Nothing);
    assert_eq!(b.state("a", Some(true), 7).unwrap().status, "stopped");
    assert_eq!(b.instances.get("a").unwrap().log_path, "/d/vms/a.log");
    let (dirs, _) = b.delete("a");
    assert_eq!(dirs, strings(&["/bundle/rootfs", "/d/vms/a-rootfs"]));
    assert!(b.exec_ready("a", Some(true), 3).is_ok());
    assert_eq!(
        b.exec_ready("a", Some(false), 0).unwrap_err(),
        "VM a is not running (status: stopped)"
    );
    assert_eq!(
        b.exec_ready("a", None, 0).unwrap_err(),
        "VM a not found (not tracked and k3rs-vmm unavailable)"
    );
}

#[test]
fn helper_is_looked_for() {
    let present = vec![false, false, true, true];
    assert_eq!(which_vmm(true, "/usr/bin/k3rs-vmm\n", &present), Some("/usr/bin/k3rs-vmm".to_string()));
    assert_eq!(which_vmm(true, " \n", &present), Some(vmm_candidates()[2].to_string()));
    assert_eq!(which_vmm(false, "x", &present), Some("/var/lib/k3rs/bin/k3rs-vmm".to_string()));
    assert_eq!(which_vmm(false, "", &vec![false; 4]), None);
    assert_eq!(bundle_rootfs("/b", true), "/b/rootfs");
    assert_eq!(bundle_rootfs("/b", false), "/b");
}

#[test]
fn init_binary_and_logs() {
    let places = init_candidates(Some("/home/u"));
    assert_eq!(places[0], "/var/lib/k3rs/bin/k3rs-init");
    assert_eq!(places[1], "/home/u/.k3rs/bin/k3rs-init");
    assert_eq!(pick_present(&places, &vec![false, true, true]), Some(places[1].clone()));
    assert_eq!(pick_present(&places, &vec![false]), None);
    assert_eq!(vm_logs("fc", "a", None, 3), strings(&["[fc] no logs for VM a"]));
    assert_eq!(resolv_conf().lines().count(), 2);
    assert_eq!(vm_logs("fc", "a", Some("x\ny"), 1), strings(&["y"]));
}
