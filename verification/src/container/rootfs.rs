//! The configuration of a container: what an image asks for and what the
//! runtime is told.
use vstd::prelude::*;
use vstd::string::*;
#[allow(unused_imports)]
use vstd::utf8::encode_utf8;
use crate::collections::{lemma_filter_map_step, sort_texts, Labels, StrMap};
#[allow(unused_imports)]
use crate::collections::{in_text_order, lemma_filter_map_has, lists, map_of};
use crate::container::backend::file_name;
#[allow(unused_imports)]
use crate::container::backend::file_name_of;
use crate::container::image::names_layer;
#[allow(unused_imports)]
use crate::container::image::is_layer;
#[allow(unused_imports)]
use crate::container::vm::{bundle_json, process_texts};
use crate::json::{array, literals, parse_text, strings, strings_in, text, to_pretty, Fields, Json};
#[allow(unused_imports)]
use crate::json::{
    field,
    is_plain,
    json_in,
    lemma_plain_deeper,
    lemma_texts_kept,
    text_array,
    text_field,
    texts_in,
    writes,
    JsonV,
};
use crate::keys::join_path;
#[allow(unused_imports)]
use crate::keys::path_join;
use crate::model::clone_strings;
use crate::split::split_once;
#[allow(unused_imports)]
use crate::split::split_first;
use crate::text::{cat, cat3, cat4, starts_with};
#[allow(unused_imports)]
use crate::text::{has_prefix, has_suffix, text_lt};
#[allow(unused_imports)]
use crate::json::{lemma_plain_key, plain_key};

verus! {

broadcast use crate::json::group_plain;

/// The keys of the objects that are written here are plain.
proof fn lemma_keys()
    ensures
        plain_key("ambient"@),
        plain_key("args"@),
        plain_key("bounding"@),
        plain_key("capabilities"@),
        plain_key("cwd"@),
        plain_key("destination"@),
        plain_key("effective"@),
        plain_key("env"@),
        plain_key("gid"@),
        plain_key("hard"@),
        plain_key("hostname"@),
        plain_key("inheritable"@),
        plain_key("linux"@),
        plain_key("maskedPaths"@),
        plain_key("mounts"@),
        plain_key("namespaces"@),
        plain_key("noNewPrivileges"@),
        plain_key("ociVersion"@),
        plain_key("options"@),
        plain_key("path"@),
        plain_key("permitted"@),
        plain_key("process"@),
        plain_key("readonly"@),
        plain_key("readonlyPaths"@),
        plain_key("rlimits"@),
        plain_key("root"@),
        plain_key("soft"@),
        plain_key("source"@),
        plain_key("terminal"@),
        plain_key("type"@),
        plain_key("uid"@),
        plain_key("user"@),
{
    reveal_strlit("ambient");
    reveal_strlit("args");
    reveal_strlit("bounding");
    reveal_strlit("capabilities");
    reveal_strlit("cwd");
    reveal_strlit("destination");
    reveal_strlit("effective");
    reveal_strlit("env");
    reveal_strlit("gid");
    reveal_strlit("hard");
    reveal_strlit("hostname");
    reveal_strlit("inheritable");
    reveal_strlit("linux");
    reveal_strlit("maskedPaths");
    reveal_strlit("mounts");
    reveal_strlit("namespaces");
    reveal_strlit("noNewPrivileges");
    reveal_strlit("ociVersion");
    reveal_strlit("options");
    reveal_strlit("path");
    reveal_strlit("permitted");
    reveal_strlit("process");
    reveal_strlit("readonly");
    reveal_strlit("readonlyPaths");
    reveal_strlit("rlimits");
    reveal_strlit("root");
    reveal_strlit("soft");
    reveal_strlit("source");
    reveal_strlit("terminal");
    reveal_strlit("type");
    reveal_strlit("uid");
    reveal_strlit("user");
    lemma_plain_key("ambient"@);
    lemma_plain_key("args"@);
    lemma_plain_key("bounding"@);
    lemma_plain_key("capabilities"@);
    lemma_plain_key("cwd"@);
    lemma_plain_key("destination"@);
    lemma_plain_key("effective"@);
    lemma_plain_key("env"@);
    lemma_plain_key("gid"@);
    lemma_plain_key("hard"@);
    lemma_plain_key("hostname"@);
    lemma_plain_key("inheritable"@);
    lemma_plain_key("linux"@);
    lemma_plain_key("maskedPaths"@);
    lemma_plain_key("mounts"@);
    lemma_plain_key("namespaces"@);
    lemma_plain_key("noNewPrivileges"@);
    lemma_plain_key("ociVersion"@);
    lemma_plain_key("options"@);
    lemma_plain_key("path"@);
    lemma_plain_key("permitted"@);
    lemma_plain_key("process"@);
    lemma_plain_key("readonly"@);
    lemma_plain_key("readonlyPaths"@);
    lemma_plain_key("rlimits"@);
    lemma_plain_key("root"@);
    lemma_plain_key("soft"@);
    lemma_plain_key("source"@);
    lemma_plain_key("terminal"@);
    lemma_plain_key("type"@);
    lemma_plain_key("uid"@);
    lemma_plain_key("user"@);
}

/// Container networking mode.
#[derive(Debug, Clone, Copy, PartialEq, Eq, Structural)]
pub enum NetworkMode {
    /// Use host networking (no network namespace isolation).
    Host,
    /// Create an isolated network namespace.
    Isolated,
}

impl Default for NetworkMode {
    fn default() -> (r: Self)
        ensures
            r == NetworkMode::Host,
    {
        NetworkMode::Host
    }
}

// ---------------------------------------------------------------------------
// What an image asks for
// ---------------------------------------------------------------------------

/// The section of an image configuration that concerns running it.
pub open spec fn run_section(v: JsonV) -> Option<JsonV> {
    match field(v, "config"@) {
        Some(c) => Some(c),
        None => field(v, "Config"@),
    }
}

/// A list of strings in the run section; empty where there is none.
pub open spec fn run_texts(image: Option<JsonV>, key: Seq<char>) -> Seq<Seq<char>> {
    match image {
        Some(v) => match run_section(v) {
            Some(c) => texts_in(field(c, key)),
            None => Seq::empty(),
        },
        None => Seq::empty(),
    }
}

/// The working directory of an image, where it names one.
pub open spec fn workdir_of(image: Option<JsonV>) -> Option<Seq<char>> {
    match image {
        Some(v) => match run_section(v) {
            Some(c) => match text_field(c, "WorkingDir"@) {
                Some(w) => if w.len() > 0 {
                    Some(w)
                } else {
                    None
                },
                None => None,
            },
            None => None,
        },
        None => None,
    }
}

/// What the text of an image configuration denotes, where there is one.
pub open spec fn image_json(data: Option<Seq<char>>) -> Option<JsonV> {
    match data {
        Some(d) => json_in(encode_utf8(d)),
        None => None,
    }
}

fn section(v: &Json) -> (r: Option<&Json>)
    ensures
        r.deep_view() == run_section(v.deep_view()),
{
    match v.get("config") {
        Some(c) => Some(c),
        None => v.get("Config"),
    }
}

fn section_texts(image: &Option<Json>, key: &str) -> (r: Vec<String>)
    ensures
        r.deep_view() == run_texts(image.deep_view(), key@),
{
    let empty: Vec<String> = Vec::new();
    assert(empty.deep_view() =~= Seq::<Seq<char>>::empty());
    match image {
        Some(v) => match section(v) {
            Some(c) => strings_in(c.get(key)),
            None => empty,
        },
        None => empty,
    }
}

/// The entrypoint and the command of an image.
pub fn image_command(image: &Option<Json>) -> (r: (Vec<String>, Vec<String>))
    ensures
        r.0.deep_view() == run_texts(image.deep_view(), "Entrypoint"@),
        r.1.deep_view() == run_texts(image.deep_view(), "Cmd"@),
{
    (section_texts(image, "Entrypoint"), section_texts(image, "Cmd"))
}

/// The environment of an image.
pub fn image_env(image: &Option<Json>) -> (r: Vec<String>)
    ensures
        r.deep_view() == run_texts(image.deep_view(), "Env"@),
{
    section_texts(image, "Env")
}

/// The working directory of an image.
pub fn image_workdir(image: &Option<Json>) -> (r: Option<String>)
    ensures
        r.deep_view() == workdir_of(image.deep_view()),
{
    match image {
        Some(v) => match section(v) {
            Some(c) => match c.get_str("WorkingDir") {
                Some(w) => if w.as_str().is_empty() {
                    None
                } else {
                    Some(w.clone())
                },
                None => None,
            },
            None => None,
        },
        None => None,
    }
}

/// Reads the text of an image configuration, where there is one.
pub fn read_image(data: Option<&str>) -> (r: Option<Json>)
    ensures
        r.deep_view() == image_json(data.deep_view()),
{
    match data {
        Some(d) => parse_text(d),
        None => None,
    }
}

/// Parses entrypoint and command from the text of an image configuration.
pub fn parse_image_config(data: Option<&str>) -> (r: (Vec<String>, Vec<String>))
    ensures
        r.0.deep_view() == run_texts(image_json(data.deep_view()), "Entrypoint"@),
        r.1.deep_view() == run_texts(image_json(data.deep_view()), "Cmd"@),
{
    image_command(&read_image(data))
}

/// Parses environment variables from the text of an image configuration.
pub fn parse_image_env(data: Option<&str>) -> (r: Vec<String>)
    ensures
        r.deep_view() == run_texts(image_json(data.deep_view()), "Env"@),
{
    image_env(&read_image(data))
}

/// Parses the working directory from the text of an image configuration.
pub fn parse_image_workdir(data: Option<&str>) -> (r: Option<String>)
    ensures
        r.deep_view() == workdir_of(image_json(data.deep_view())),
{
    image_workdir(&read_image(data))
}

// ---------------------------------------------------------------------------
// Command, directory and environment
// ---------------------------------------------------------------------------

/// The command line: as given, else the entrypoint and command of the image,
/// else a shell.
pub open spec fn resolved_command(
    given: Seq<Seq<char>>,
    entrypoint: Seq<Seq<char>>,
    cmd: Seq<Seq<char>>,
) -> Seq<Seq<char>> {
    if given.len() > 0 {
        given
    } else if entrypoint.len() > 0 {
        entrypoint + cmd
    } else if cmd.len() > 0 {
        cmd
    } else {
        seq!["/bin/sh"@]
    }
}

/// Resolves the command line.
pub fn resolve_command(
    given: &Vec<String>,
    entrypoint: Vec<String>,
    cmd: Vec<String>,
) -> (r: Vec<String>)
    ensures
        r.deep_view() == resolved_command(
            given.deep_view(),
            entrypoint.deep_view(),
            cmd.deep_view(),
        ),
{
    if given.len() > 0 {
        clone_strings(given)
    } else if entrypoint.len() > 0 {
        let ghost e = entrypoint.deep_view();
        let ghost c = cmd.deep_view();
        let mut full: Vec<String> = entrypoint;
        let mut rest: Vec<String> = cmd;
        full.append(&mut rest);
        assert(full.deep_view() =~= e + c);
        full
    } else if cmd.len() > 0 {
        cmd
    } else {
        let mut sh: Vec<String> = Vec::new();
        sh.push("/bin/sh".to_owned());
        assert(sh.deep_view() =~= seq!["/bin/sh"@]);
        sh
    }
}

/// The working directory: as given, else that of the image, else the root.
pub open spec fn resolved_cwd(given: Option<Seq<char>>, image: Option<Seq<char>>) -> Seq<char> {
    match given {
        Some(w) => w,
        None => match image {
            Some(w) => w,
            None => "/"@,
        },
    }
}

/// The variables that the entries of an image set; entries without an equals
/// sign set none.
pub open spec fn image_vars(entries: Seq<Seq<char>>) -> Map<Seq<char>, Seq<char>>
    decreases entries.len(),
{
    if entries.len() == 0 {
        Map::empty()
    } else {
        match split_first(entries.last(), '=') {
            Some((k, v)) => image_vars(entries.drop_last()).insert(k, v),
            None => image_vars(entries.drop_last()),
        }
    }
}

/// A map with an entry added where the key is missing.
pub open spec fn or_default(m: Map<Seq<char>, Seq<char>>, k: Seq<char>, v: Seq<char>) -> Map<
    Seq<char>,
    Seq<char>,
> {
    if m.contains_key(k) {
        m
    } else {
        m.insert(k, v)
    }
}

/// The variables of the image with the defaults, and the host name set.
pub open spec fn base_vars(entries: Seq<Seq<char>>, id: Seq<char>) -> Map<Seq<char>, Seq<char>> {
    or_default(
        or_default(
            or_default(
                image_vars(entries),
                "PATH"@,
                "/usr/local/sbin:/usr/local/bin:/usr/sbin:/usr/bin:/sbin:/bin"@,
            ).insert("HOSTNAME"@, id),
            "TERM"@,
            "xterm"@,
        ),
        "HOME"@,
        "/root"@,
    )
}

/// The environment of a container: that of the image, with defaults, and over
/// all what the user asks for.
pub open spec fn container_vars(
    entries: Seq<Seq<char>>,
    id: Seq<char>,
    user: Map<Seq<char>, Seq<char>>,
) -> Map<Seq<char>, Seq<char>> {
    base_vars(entries, id).union_prefer_right(user)
}

/// Variables as texts of the form `key=value`.
pub open spec fn rendered(order: Seq<(Seq<char>, Seq<char>)>) -> Seq<Seq<char>> {
    Seq::new(order.len(), |i: int| order[i].0 + "="@ + order[i].1)
}

fn insert_default(m: Labels, k: &str, v: &str) -> (r: Labels)
    ensures
        r.deep_view() == or_default(m.deep_view(), k@, v@),
{
    let mut out: Labels = m;
    if !out.contains_key(k) {
        out.insert(k.to_owned(), v.to_owned());
    }
    out
}

fn vars_of_image(entries: &Vec<String>) -> (r: Labels)
    ensures
        r.deep_view() == image_vars(entries.deep_view()),
{
    let ghost all = entries.deep_view();
    let mut out: Labels = StrMap::new();
    let mut i: usize = 0;
    assert(all.take(0) =~= Seq::<Seq<char>>::empty());
    while i < entries.len()
        invariant
            i <= entries@.len(),
            all == entries.deep_view(),
            out.deep_view() == image_vars(all.take(i as int)),
        decreases entries@.len() - i,
    {
        assert(all.take(i + 1).drop_last() =~= all.take(i as int));
        assert(all.take(i + 1).last() == entries@[i as int]@);
        match split_once(entries[i].as_str(), '=') {
            Some((k, v)) => {
                out.insert(k, v);
            },
            None => {},
        }
        i = i + 1;
    }
    assert(all.take(i as int) =~= all);
    out
}

fn overlay(base: Labels, user: &Labels) -> (r: Labels)
    ensures
        r.deep_view() == base.deep_view().union_prefer_right(user.deep_view()),
{
    let ghost b = base.deep_view();
    let mut out: Labels = base;
    let n: usize = user.len();
    let mut i: usize = 0;
    assert(user.items().take(0) =~= Seq::<(Seq<char>, Seq<char>)>::empty());
    assert(b.union_prefer_right(Map::empty()) =~= b);
    while i < n
        invariant
            i <= n,
            n == user.items().len(),
            out.deep_view() == b.union_prefer_right(map_of(user.items().take(i as int))),
        decreases n - i,
    {
        out.insert(user.key_at(i).clone(), user.value_at(i).clone());
        assert(user.items().take(i + 1).drop_last() =~= user.items().take(i as int));
        assert(out.deep_view() =~= b.union_prefer_right(map_of(user.items().take(i + 1))));
        i = i + 1;
    }
    assert(user.items().take(n as int) =~= user.items());
    out
}

/// Merges the environment of a container and lists it, in some order.
pub fn container_env(image_env: &Vec<String>, id: &str, user: &Labels) -> (r: Vec<String>)
    ensures
        exists|order: Seq<(Seq<char>, Seq<char>)>| #[trigger]
            lists(order, container_vars(image_env.deep_view(), id@, user.deep_view()))
                && r.deep_view() == rendered(order),
{
    let mut vars: Labels = vars_of_image(image_env);
    vars = insert_default(
        vars,
        "PATH",
        "/usr/local/sbin:/usr/local/bin:/usr/sbin:/usr/bin:/sbin:/bin",
    );
    vars.insert("HOSTNAME".to_owned(), id.to_owned());
    vars = insert_default(vars, "TERM", "xterm");
    vars = insert_default(vars, "HOME", "/root");
    let all: Labels = overlay(vars, user);
    let ghost order = all.items();
    let n: usize = all.len();
    let mut out: Vec<String> = Vec::new();
    let mut i: usize = 0;
    while i < n
        invariant
            i <= n,
            n == all.items().len(),
            order == all.items(),
            out@.len() == i,
            forall|j: int|
                0 <= j < i ==> (#[trigger] out@[j])@ == order[j].0 + "="@ + order[j].1,
        decreases n - i,
    {
        out.push(cat3(all.key_at(i).as_str(), "=", all.value_at(i).as_str()));
        i = i + 1;
    }
    assert(out.deep_view() =~= rendered(order));
    assert(lists(order, container_vars(image_env.deep_view(), id@, user.deep_view())));
    out
}

// ---------------------------------------------------------------------------
// The runtime configuration
// ---------------------------------------------------------------------------

/// The capabilities that a container has.
pub open spec fn default_caps() -> JsonV {
    text_array(
        seq![
            "CAP_CHOWN"@,
            "CAP_DAC_OVERRIDE"@,
            "CAP_FSETID"@,
            "CAP_FOWNER"@,
            "CAP_MKNOD"@,
            "CAP_NET_RAW"@,
            "CAP_SETGID"@,
            "CAP_SETUID"@,
            "CAP_SETFCAP"@,
            "CAP_SETPCAP"@,
            "CAP_NET_BIND_SERVICE"@,
            "CAP_SYS_CHROOT"@,
            "CAP_KILL"@,
            "CAP_AUDIT_WRITE"@,
        ],
    )
}

/// An object with one field that names a type.
pub open spec fn typed(name: Seq<char>) -> JsonV {
    JsonV::Object(map!["type"@ => JsonV::Text(name)])
}

/// The namespaces of a container: its own network only where it is isolated.
pub open spec fn namespaces(mode: NetworkMode) -> Seq<JsonV> {
    let base = seq![typed("pid"@), typed("ipc"@), typed("uts"@), typed("mount"@), typed("cgroup"@)];
    if mode == NetworkMode::Isolated {
        base.push(typed("network"@))
    } else {
        base
    }
}

/// The section on the Linux side of a container.
pub open spec fn linux_section(mode: NetworkMode) -> JsonV {
    JsonV::Object(
        map![
            "namespaces"@ => JsonV::Array(namespaces(mode)),
            "maskedPaths"@ => text_array(seq![
                "/proc/acpi"@,
                "/proc/asound"@,
                "/proc/kcore"@,
                "/proc/keys"@,
                "/proc/latency_stats"@,
                "/proc/timer_list"@,
                "/proc/timer_stats"@,
                "/proc/sched_debug"@,
                "/sys/firmware"@,
                "/proc/scsi"@,
            ]),
            "readonlyPaths"@ => text_array(seq![
                "/proc/bus"@,
                "/proc/fs"@,
                "/proc/irq"@,
                "/proc/sys"@,
                "/proc/sysrq-trigger"@,
            ])
        ],
    )
}

/// A mount without options.
pub open spec fn plain_mount(dest: Seq<char>, kind: Seq<char>, source: Seq<char>) -> Map<
    Seq<char>,
    JsonV,
> {
    map![
        "destination"@ => JsonV::Text(dest),
        "type"@ => JsonV::Text(kind),
        "source"@ => JsonV::Text(source)
    ]
}

/// A mount with options.
pub open spec fn mount_with(
    dest: Seq<char>,
    kind: Seq<char>,
    source: Seq<char>,
    options: Seq<Seq<char>>,
) -> JsonV {
    JsonV::Object(plain_mount(dest, kind, source).insert("options"@, text_array(options)))
}

/// The mounts of a container.
pub open spec fn mounts() -> Seq<JsonV> {
    seq![
        JsonV::Object(plain_mount("/proc"@, "proc"@, "proc"@)),
        mount_with(
            "/dev"@,
            "tmpfs"@,
            "tmpfs"@,
            seq!["nosuid"@, "strictatime"@, "mode=755"@, "size=65536k"@],
        ),
        mount_with(
            "/dev/pts"@,
            "devpts"@,
            "devpts"@,
            seq!["nosuid"@, "noexec"@, "newinstance"@, "ptmxmode=0666"@, "mode=0620"@],
        ),
        mount_with(
            "/dev/shm"@,
            "tmpfs"@,
            "shm"@,
            seq!["nosuid"@, "noexec"@, "nodev"@, "mode=1777"@, "size=65536k"@],
        ),
        mount_with(
            "/dev/mqueue"@,
            "mqueue"@,
            "mqueue"@,
            seq!["nosuid"@, "noexec"@, "nodev"@],
        ),
        mount_with(
            "/sys"@,
            "sysfs"@,
            "sysfs"@,
            seq!["nosuid"@, "noexec"@, "nodev"@, "ro"@],
        ),
        mount_with(
            "/sys/fs/cgroup"@,
            "cgroup2"@,
            "cgroup"@,
            seq!["nosuid"@, "noexec"@, "nodev"@, "relatime"@, "ro"@],
        ),
    ]
}

/// The section on the process of a container.
pub open spec fn process_section(
    args: Seq<Seq<char>>,
    env: Seq<Seq<char>>,
    cwd: Seq<char>,
) -> JsonV {
    JsonV::Object(
        map![
            "terminal"@ => JsonV::Bool(false),
            "user"@ => JsonV::Object(map!["uid"@ => JsonV::UInt(0), "gid"@ => JsonV::UInt(0)]),
            "args"@ => text_array(args),
            "env"@ => text_array(env),
            "cwd"@ => JsonV::Text(cwd),
            "capabilities"@ => JsonV::Object(map![
                "bounding"@ => default_caps(),
                "effective"@ => default_caps(),
                "inheritable"@ => default_caps(),
                "permitted"@ => default_caps(),
                "ambient"@ => default_caps()
            ]),
            "rlimits"@ => JsonV::Array(seq![JsonV::Object(map![
                "type"@ => JsonV::Text("RLIMIT_NOFILE"@),
                "hard"@ => JsonV::UInt(1024),
                "soft"@ => JsonV::UInt(1024)
            ])]),
            "noNewPrivileges"@ => JsonV::Bool(true)
        ],
    )
}

/// The runtime configuration of a container.
pub open spec fn oci_config(
    id: Seq<char>,
    args: Seq<Seq<char>>,
    env: Seq<Seq<char>>,
    cwd: Seq<char>,
    mode: NetworkMode,
) -> JsonV {
    JsonV::Object(
        map![
            "ociVersion"@ => JsonV::Text("1.0.2"@),
            "process"@ => process_section(args, env, cwd),
            "root"@ => JsonV::Object(map![
                "path"@ => JsonV::Text("rootfs"@),
                "readonly"@ => JsonV::Bool(false)
            ]),
            "hostname"@ => JsonV::Text(id),
            "mounts"@ => JsonV::Array(mounts()),
            "linux"@ => linux_section(mode)
        ],
    )
}

fn caps_value() -> (r: Json)
    ensures
        r.deep_view() == default_caps(),
        is_plain(r.deep_view(), 1),
{
    let v: Vec<&str> = vec![
        "CAP_CHOWN",
        "CAP_DAC_OVERRIDE",
        "CAP_FSETID",
        "CAP_FOWNER",
        "CAP_MKNOD",
        "CAP_NET_RAW",
        "CAP_SETGID",
        "CAP_SETUID",
        "CAP_SETFCAP",
        "CAP_SETPCAP",
        "CAP_NET_BIND_SERVICE",
        "CAP_SYS_CHROOT",
        "CAP_KILL",
        "CAP_AUDIT_WRITE",
    ];
    assert(v.deep_view() =~= seq![
        "CAP_CHOWN"@,
        "CAP_DAC_OVERRIDE"@,
        "CAP_FSETID"@,
        "CAP_FOWNER"@,
        "CAP_MKNOD"@,
        "CAP_NET_RAW"@,
        "CAP_SETGID"@,
        "CAP_SETUID"@,
        "CAP_SETFCAP"@,
        "CAP_SETPCAP"@,
        "CAP_NET_BIND_SERVICE"@,
        "CAP_SYS_CHROOT"@,
        "CAP_KILL"@,
        "CAP_AUDIT_WRITE"@,
    ]);
    literals(v)
}

fn typed_value(name: &str) -> (r: Json)
    ensures
        r.deep_view() == typed(name@),
        is_plain(r.deep_view(), 1),
{
    proof {
        lemma_keys();
    }
    Fields::new().with("type", text(name)).object()
}

fn linux_value(mode: NetworkMode) -> (r: Json)
    ensures
        r.deep_view() == linux_section(mode),
        is_plain(r.deep_view(), 3),
{
    proof {
        lemma_keys();
    }
    let mut ns: Vec<Json> = Vec::new();
    ns.push(typed_value("pid"));
    ns.push(typed_value("ipc"));
    ns.push(typed_value("uts"));
    ns.push(typed_value("mount"));
    ns.push(typed_value("cgroup"));
    if mode == NetworkMode::Isolated {
        ns.push(typed_value("network"));
    }
    let ghost nsv = ns.deep_view();
    assert(nsv =~= namespaces(mode));
    assert forall|i: int| 0 <= i < nsv.len() implies is_plain(#[trigger] nsv[i], 1) by {
        assert(nsv[i] == ns@[i].deep_view());
    }
    let masked: Vec<&str> = vec![
        "/proc/acpi",
        "/proc/asound",
        "/proc/kcore",
        "/proc/keys",
        "/proc/latency_stats",
        "/proc/timer_list",
        "/proc/timer_stats",
        "/proc/sched_debug",
        "/sys/firmware",
        "/proc/scsi",
    ];
    assert(masked.deep_view() =~= seq![
        "/proc/acpi"@,
        "/proc/asound"@,
        "/proc/kcore"@,
        "/proc/keys"@,
        "/proc/latency_stats"@,
        "/proc/timer_list"@,
        "/proc/timer_stats"@,
        "/proc/sched_debug"@,
        "/sys/firmware"@,
        "/proc/scsi"@,
    ]);
    let readonly: Vec<&str> = vec![
        "/proc/bus",
        "/proc/fs",
        "/proc/irq",
        "/proc/sys",
        "/proc/sysrq-trigger",
    ];
    assert(readonly.deep_view() =~= seq![
        "/proc/bus"@,
        "/proc/fs"@,
        "/proc/irq"@,
        "/proc/sys"@,
        "/proc/sysrq-trigger"@,
    ]);
    Fields::new().with("namespaces", array(ns)).with("maskedPaths", literals(masked)).with(
        "readonlyPaths",
        literals(readonly),
    ).object()
}

fn mount_value(dest: &str, kind: &str, source: &str, options: Vec<&str>) -> (r: Json)
    ensures
        r.deep_view() == mount_with(dest@, kind@, source@, options.deep_view()),
        is_plain(r.deep_view(), 2),
{
    proof {
        lemma_keys();
    }
    Fields::new().with("destination", text(dest)).with("type", text(kind)).with(
        "source",
        text(source),
    ).with("options", literals(options)).object()
}

fn mounts_value() -> (r: Json)
    ensures
        r.deep_view() == JsonV::Array(mounts()),
        is_plain(r.deep_view(), 3),
{
    proof {
        lemma_keys();
    }
    let proc: Json = Fields::new().with("destination", text("/proc")).with(
        "type",
        text("proc"),
    ).with("source", text("proc")).object();
    let dev: Vec<&str> = vec!["nosuid", "strictatime", "mode=755", "size=65536k"];
    assert(dev.deep_view() =~= seq!["nosuid"@, "strictatime"@, "mode=755"@, "size=65536k"@]);
    let pts: Vec<&str> = vec!["nosuid", "noexec", "newinstance", "ptmxmode=0666", "mode=0620"];
    assert(pts.deep_view() =~= seq![
        "nosuid"@,
        "noexec"@,
        "newinstance"@,
        "ptmxmode=0666"@,
        "mode=0620"@,
    ]);
    let shm: Vec<&str> = vec!["nosuid", "noexec", "nodev", "mode=1777", "size=65536k"];
    assert(shm.deep_view() =~= seq![
        "nosuid"@,
        "noexec"@,
        "nodev"@,
        "mode=1777"@,
        "size=65536k"@,
    ]);
    let mqueue: Vec<&str> = vec!["nosuid", "noexec", "nodev"];
    assert(mqueue.deep_view() =~= seq!["nosuid"@, "noexec"@, "nodev"@]);
    let sys: Vec<&str> = vec!["nosuid", "noexec", "nodev", "ro"];
    assert(sys.deep_view() =~= seq!["nosuid"@, "noexec"@, "nodev"@, "ro"@]);
    let cgroup: Vec<&str> = vec!["nosuid", "noexec", "nodev", "relatime", "ro"];
    assert(cgroup.deep_view() =~= seq![
        "nosuid"@,
        "noexec"@,
        "nodev"@,
        "relatime"@,
        "ro"@,
    ]);
    let mut out: Vec<Json> = Vec::new();
    out.push(proc);
    out.push(mount_value("/dev", "tmpfs", "tmpfs", dev));
    out.push(mount_value("/dev/pts", "devpts", "devpts", pts));
    out.push(mount_value("/dev/shm", "tmpfs", "shm", shm));
    out.push(mount_value("/dev/mqueue", "mqueue", "mqueue", mqueue));
    out.push(mount_value("/sys", "sysfs", "sysfs", sys));
    out.push(mount_value("/sys/fs/cgroup", "cgroup2", "cgroup", cgroup));
    let ghost ov = out.deep_view();
    assert(ov =~= mounts());
    assert forall|i: int| 0 <= i < ov.len() implies is_plain(#[trigger] ov[i], 2) by {
        assert(ov[i] == out@[i].deep_view());
    }
    array(out)
}

fn process_value(args: &Vec<String>, env: &Vec<String>, cwd: &str) -> (r: Json)
    ensures
        r.deep_view() == process_section(args.deep_view(), env.deep_view(), cwd@),
        is_plain(r.deep_view(), 4),
{
    proof {
        lemma_keys();
    }
    let user: Json = Fields::new().with("uid", Json::UInt(0)).with("gid", Json::UInt(0)).object();
    let caps: Json = Fields::new().with("bounding", caps_value()).with(
        "effective",
        caps_value(),
    ).with("inheritable", caps_value()).with("permitted", caps_value()).with(
        "ambient",
        caps_value(),
    ).object();
    let limit: Json = Fields::new().with("type", text("RLIMIT_NOFILE")).with(
        "hard",
        Json::UInt(1024),
    ).with("soft", Json::UInt(1024)).object();
    let mut limits: Vec<Json> = Vec::new();
    let ghost lv = limit.deep_view();
    limits.push(limit);
    assert(limits.deep_view() =~= seq![lv]);
    proof {
        assert(is_plain(lv, 2));
        assert(is_plain(JsonV::Array(seq![lv]), 3));
    }
    Fields::new().with("terminal", Json::Bool(false)).with("user", user).with(
        "args",
        strings(args),
    ).with("env", strings(env)).with("cwd", text(cwd)).with("capabilities", caps).with(
        "rlimits",
        array(limits),
    ).with("noNewPrivileges", Json::Bool(true)).object()
}

/// Makes the runtime configuration of a container.
pub fn config_value(
    id: &str,
    args: &Vec<String>,
    env: &Vec<String>,
    cwd: &str,
    mode: NetworkMode,
) -> (r: Json)
    ensures
        r.deep_view() == oci_config(id@, args.deep_view(), env.deep_view(), cwd@, mode),
        is_plain(r.deep_view(), 127),
{
    proof {
        lemma_keys();
    }
    let process: Json = process_value(args, env, cwd);
    let root: Json = Fields::new().with("path", text("rootfs")).with(
        "readonly",
        Json::Bool(false),
    ).object();
    let mounts: Json = mounts_value();
    let linux: Json = linux_value(mode);
    proof {
        lemma_plain_deeper(process.deep_view(), 4, 126);
        lemma_plain_deeper(mounts.deep_view(), 3, 126);
        lemma_plain_deeper(linux.deep_view(), 3, 126);
        assert(is_plain(root.deep_view(), 1));
        lemma_plain_deeper(root.deep_view(), 1, 126);
    }
    Fields::new().with("ociVersion", text("1.0.2")).with("process", process).with(
        "root",
        root,
    ).with("hostname", text(id)).with("mounts", mounts).with("linux", linux).object()
}

/// Manages rootfs extraction from OCI image layers.
pub struct RootfsManager;

impl RootfsManager {
    /// Generates the configuration of a container without an image, on the
    /// network of the host.
    pub fn generate_config(
        container_id: &str,
        rootfs_path: &str,
        command: &Vec<String>,
        env_vars: &Labels,
    ) -> (r: Result<String, String>)
        ensures
            r is Ok,
            exists|order: Seq<(Seq<char>, Seq<char>)>| #[trigger]
                lists(order, container_vars(Seq::empty(), container_id@, env_vars.deep_view()))
                    && writes(
                    r->Ok_0@,
                    oci_config(
                        container_id@,
                        resolved_command(command.deep_view(), Seq::empty(), Seq::empty()),
                        rendered(order),
                        "/"@,
                        NetworkMode::Host,
                    ),
                ),
    {
        Self::generate_config_full(
            container_id,
            rootfs_path,
            command,
            env_vars,
            None,
            None,
            NetworkMode::Host,
        )
    }

    /// Generates the configuration of a container from what is asked for, what
    /// its image configuration holds, and the network mode.
    pub fn generate_config_full(
        container_id: &str,
        _rootfs_path: &str,
        command: &Vec<String>,
        env_vars: &Labels,
        image_config: Option<&str>,
        working_dir: Option<&str>,
        network_mode: NetworkMode,
    ) -> (r: Result<String, String>)
        ensures
            r is Ok,
            ({
                let image = image_json(image_config.deep_view());
                exists|order: Seq<(Seq<char>, Seq<char>)>| #[trigger]
                    lists(
                        order,
                        container_vars(
                            run_texts(image, "Env"@),
                            container_id@,
                            env_vars.deep_view(),
                        ),
                    ) && writes(
                        r->Ok_0@,
                        oci_config(
                            container_id@,
                            resolved_command(
                                command.deep_view(),
                                run_texts(image, "Entrypoint"@),
                                run_texts(image, "Cmd"@),
                            ),
                            rendered(order),
                            resolved_cwd(working_dir.deep_view(), workdir_of(image)),
                            network_mode,
                        ),
                    )
            }),
    {
        let image: Option<Json> = read_image(image_config);
        let (entrypoint, cmd) = image_command(&image);
        let args: Vec<String> = resolve_command(command, entrypoint, cmd);
        let cwd: String = match working_dir {
            Some(w) => w.to_owned(),
            None => match image_workdir(&image) {
                Some(w) => w,
                None => "/".to_owned(),
            },
        };
        let entries: Vec<String> = image_env(&image);
        let env: Vec<String> = container_env(&entries, container_id, env_vars);
        let config: Json = config_value(container_id, &args, &env, cwd.as_str(), network_mode);
        Ok(to_pretty(config))
    }
}

/// Whether the file name of a layer entry marks a deletion.
pub open spec fn marks_deletion(path: Seq<char>) -> bool {
    match file_name_of(path) {
        Some(name) => has_prefix(name, ".wh."@),
        None => false,
    }
}

/// Where an entry of a layer is unpacked to; nowhere if it marks a deletion.
pub fn unpack_entry(rootfs: &str, entry_path: &str) -> (r: Option<String>)
    ensures
        r.deep_view() == if marks_deletion(entry_path@) {
            None
        } else {
            Some(path_join(rootfs@, entry_path@))
        },
{
    let skip: bool = match file_name(entry_path) {
        Some(name) => starts_with(name.as_str(), ".wh."),
        None => false,
    };
    if skip {
        None
    } else {
        Some(join_path(rootfs, entry_path))
    }
}

/// What becomes of an entry that could not be unpacked: one that is there already
/// is passed over, anything else ends the extraction.
pub fn unpack_failure(already_there: bool, dest: &str, error: &str) -> (r: Option<String>)
    ensures
        r.deep_view() == if already_there {
            None
        } else {
            Some("failed to unpack `"@ + dest@ + "`: "@ + error@)
        },
{
    if already_there {
        None
    } else {
        Some(cat4("failed to unpack `", dest, "`: ", error))
    }
}

/// The name of a layer.
pub open spec fn layer_rule() -> spec_fn(Seq<char>) -> Option<Seq<char>> {
    |name: Seq<char>|
        if is_layer(name) {
            Some(name)
        } else {
            None
        }
}

/// Whether a list holds the names of the layers among some files, in the order of
/// the names.
pub open spec fn layers_in_order(files: Seq<Seq<char>>, r: Seq<Seq<char>>) -> bool {
    in_text_order(r) && r.to_multiset() == files.filter_map(layer_rule()).to_multiset()
}

/// The layers to extract, in order, from the files that are in the layers'
/// directory; or what is said where there is no such directory.
pub fn layers_to_extract(layers_dir: &str, files: Option<&Vec<String>>) -> (r: Result<
    Vec<String>,
    String,
>)
    ensures
        match r {
            Ok(l) => files is Some && layers_in_order(files->0.deep_view(), l.deep_view()),
            Err(e) => files is None && e@ == "No layers directory found at "@ + layers_dir@,
        },
{
    let names: &Vec<String> = match files {
        Some(f) => f,
        None => {
            return Err(cat("No layers directory found at ", layers_dir));
        },
    };
    let ghost all = names.deep_view();
    let mut layers: Vec<String> = Vec::new();
    let mut i: usize = 0;
    proof {
        assert(all.take(0) =~= Seq::<Seq<char>>::empty());
        reveal(Seq::filter_map);
        assert(layers.deep_view() =~= all.take(0).filter_map(layer_rule()));
    }
    while i < names.len()
        invariant
            i <= names@.len(),
            all == names.deep_view(),
            layers.deep_view() == all.take(i as int).filter_map(layer_rule()),
        decreases names@.len() - i,
    {
        let ghost before = layers.deep_view();
        proof {
            lemma_filter_map_step(all, layer_rule(), i as int);
            assert(all[i as int] == names@[i as int]@);
        }
        if names_layer(names[i].as_str()) {
            layers.push(names[i].clone());
            assert(layers.deep_view() =~= before.push(all[i as int]));
        }
        i = i + 1;
    }
    assert(all.take(i as int) =~= all);
    Ok(sort_texts(&layers))
}

// ---------------------------------------------------------------------------
// Laws
// ---------------------------------------------------------------------------

/// What is written into a bundle is read back as the command and environment of
/// its container.
pub proof fn law_bundle_is_read_back(
    t: Seq<char>,
    id: Seq<char>,
    args: Seq<Seq<char>>,
    env: Seq<Seq<char>>,
    cwd: Seq<char>,
    mode: NetworkMode,
)
    requires
        writes(t, oci_config(id, args, env, cwd, mode)),
    ensures
        process_texts(bundle_json(Some(t)), "args"@) == args,
        process_texts(bundle_json(Some(t)), "env"@) == env,
{
    reveal_strlit("process");
    reveal_strlit("root");
    reveal_strlit("hostname");
    reveal_strlit("mounts");
    reveal_strlit("linux");
    reveal_strlit("args");
    reveal_strlit("env");
    reveal_strlit("cwd");
    reveal_strlit("capabilities");
    reveal_strlit("rlimits");
    reveal_strlit("noNewPrivileges");
    assert("process"@.len() == 7 && "root"@.len() == 4 && "hostname"@.len() == 8 && "mounts"@.len()
        == 6 && "linux"@.len() == 5);
    assert("args"@.len() == 4 && "env"@.len() == 3 && "cwd"@.len() == 3 && "capabilities"@.len()
        == 12 && "rlimits"@.len() == 7 && "noNewPrivileges"@.len() == 15);
    assert("env"@[0] == 'e' && "cwd"@[0] == 'c');
    lemma_texts_kept(args);
    lemma_texts_kept(env);
}

/// What the user asks for wins over the image and the defaults, and the name of
/// the container is its host name unless the user says otherwise.
pub proof fn law_user_environment_wins(
    entries: Seq<Seq<char>>,
    id: Seq<char>,
    user: Map<Seq<char>, Seq<char>>,
    key: Seq<char>,
)
    ensures
        user.contains_key(key) ==> container_vars(entries, id, user).contains_key(key)
            && container_vars(entries, id, user)[key] == user[key],
        !user.contains_key("HOSTNAME"@) ==> container_vars(entries, id, user)["HOSTNAME"@] == id,
        container_vars(entries, id, user).contains_key("PATH"@),
        container_vars(entries, id, user).contains_key("HOSTNAME"@),
        container_vars(entries, id, user).contains_key("TERM"@),
        container_vars(entries, id, user).contains_key("HOME"@),
{
    reveal_strlit("HOSTNAME");
    reveal_strlit("PATH");
    reveal_strlit("TERM");
    reveal_strlit("HOME");
    assert("HOSTNAME"@.len() == 8 && "PATH"@.len() == 4 && "TERM"@.len() == 4 && "HOME"@.len()
        == 4);
    assert("HOME"@[0] == 'H' && "PATH"@[0] == 'P' && "TERM"@[0] == 'T');
}

/// A container has a network of its own exactly if it is isolated.
pub proof fn law_network_only_if_isolated(mode: NetworkMode)
    ensures
        namespaces(mode).contains(typed("network"@)) <==> mode == NetworkMode::Isolated,
{
    reveal_strlit("network");
    reveal_strlit("pid");
    reveal_strlit("ipc");
    reveal_strlit("uts");
    reveal_strlit("mount");
    reveal_strlit("cgroup");
    let n = typed("network"@);
    assert(n->Object_0["type"@] == JsonV::Text("network"@));
    assert("network"@.len() == 7);
    if mode == NetworkMode::Isolated {
        assert(namespaces(mode)[5] == n);
    } else {
        assert forall|i: int| 0 <= i < namespaces(mode).len() implies namespaces(mode)[i] != n by {
            let x = namespaces(mode)[i];
            assert(x->Object_0["type"@]->Text_0.len() < 7);
        }
    }
}

proof fn lemma_config_keys()
    ensures
        "process"@ != "root"@,
        "process"@ != "hostname"@,
        "process"@ != "mounts"@,
        "process"@ != "linux"@,
        "root"@ != "hostname"@,
        "root"@ != "mounts"@,
        "root"@ != "linux"@,
        "hostname"@ != "mounts"@,
        "hostname"@ != "linux"@,
        "mounts"@ != "linux"@,
        "terminal"@ != "noNewPrivileges"@,
        "user"@ != "args"@,
        "user"@ != "env"@,
        "user"@ != "cwd"@,
        "user"@ != "capabilities"@,
        "user"@ != "rlimits"@,
        "user"@ != "noNewPrivileges"@,
        "args"@ != "env"@,
        "args"@ != "cwd"@,
        "args"@ != "capabilities"@,
        "args"@ != "rlimits"@,
        "args"@ != "noNewPrivileges"@,
        "env"@ != "cwd"@,
        "env"@ != "capabilities"@,
        "env"@ != "rlimits"@,
        "env"@ != "noNewPrivileges"@,
        "cwd"@ != "capabilities"@,
        "cwd"@ != "rlimits"@,
        "cwd"@ != "noNewPrivileges"@,
        "capabilities"@ != "rlimits"@,
        "capabilities"@ != "noNewPrivileges"@,
        "rlimits"@ != "noNewPrivileges"@,
{
    reveal_strlit("process");
    reveal_strlit("root");
    reveal_strlit("hostname");
    reveal_strlit("mounts");
    reveal_strlit("linux");
    reveal_strlit("terminal");
    reveal_strlit("user");
    reveal_strlit("args");
    reveal_strlit("env");
    reveal_strlit("cwd");
    reveal_strlit("capabilities");
    reveal_strlit("rlimits");
    reveal_strlit("noNewPrivileges");
    assert("process"@.len() == 7 && "root"@.len() == 4 && "hostname"@.len() == 8 && "mounts"@.len()
        == 6 && "linux"@.len() == 5 && "terminal"@.len() == 8);
    assert("user"@.len() == 4 && "args"@.len() == 4 && "env"@.len() == 3 && "cwd"@.len() == 3
        && "capabilities"@.len() == 12 && "rlimits"@.len() == 7 && "noNewPrivileges"@.len() == 15);
    assert("env"@[0] == 'e' && "cwd"@[0] == 'c' && "user"@[0] == 'u' && "args"@[0] == 'a');
}

/// The configuration of a container runs the given command with the given
/// environment in the given directory, under the container's name, as root of the
/// container without a way to more privileges, in its own writable file system, and
/// with a network of its own exactly where it is isolated.
pub proof fn law_config_runs_the_command(
    id: &str,
    args: Vec<String>,
    env: Vec<String>,
    cwd: &str,
    mode: NetworkMode,
    r: Json,
)
    requires
        call_ensures(config_value, (id, &args, &env, cwd, mode), r),
    ensures
        ({
            let v = r.deep_view();
            let process = field(v, "process"@)->0;
            let linux = field(v, "linux"@)->0;
            let caps = field(process, "capabilities"@)->0;
            &&& field(v, "process"@) is Some
            &&& texts_in(field(process, "args"@)) == args.deep_view()
            &&& texts_in(field(process, "env"@)) == env.deep_view()
            &&& text_field(process, "cwd"@) == Some(cwd@)
            &&& field(process, "noNewPrivileges"@) == Some(JsonV::Bool(true))
            &&& text_field(v, "hostname"@) == Some(id@)
            &&& text_field(field(v, "root"@)->0, "path"@) == Some("rootfs"@)
            &&& field(field(v, "root"@)->0, "readonly"@) == Some(JsonV::Bool(false))
            &&& field(v, "linux"@) is Some
            &&& field(linux, "namespaces"@) matches Some(JsonV::Array(a)) && (a.contains(
                JsonV::Object(map!["type"@ => JsonV::Text("network"@)]),
            ) <==> mode == NetworkMode::Isolated)
            &&& field(process, "capabilities"@) is Some
            &&& field(caps, "bounding"@) is Some
            &&& field(caps, "effective"@) == field(caps, "bounding"@)
            &&& field(caps, "permitted"@) == field(caps, "bounding"@)
        }),
{
    lemma_config_keys();
    lemma_texts_kept(args.deep_view());
    lemma_texts_kept(env.deep_view());
    law_network_only_if_isolated(mode);
    reveal_strlit("path");
    reveal_strlit("readonly");
    reveal_strlit("namespaces");
    reveal_strlit("maskedPaths");
    reveal_strlit("readonlyPaths");
    reveal_strlit("bounding");
    reveal_strlit("effective");
    reveal_strlit("inheritable");
    reveal_strlit("permitted");
    reveal_strlit("ambient");
    assert("path"@.len() == 4 && "readonly"@.len() == 8);
    assert("namespaces"@.len() == 10 && "maskedPaths"@.len() == 11 && "readonlyPaths"@.len() == 13);
    assert("bounding"@.len() == 8 && "effective"@.len() == 9 && "inheritable"@.len() == 11
        && "permitted"@.len() == 9 && "ambient"@.len() == 7);
    assert("effective"@[0] == 'e' && "permitted"@[0] == 'p');
}

/// A container runs the command that it is given; without one the image's entry
/// point with the image's command as its arguments; without that the image's
/// command; and without any a shell.
pub proof fn law_command_is_resolved(
    given: Vec<String>,
    entrypoint: Vec<String>,
    cmd: Vec<String>,
    r: Vec<String>,
)
    requires
        call_ensures(resolve_command, (&given, entrypoint, cmd), r),
    ensures
        given.len() > 0 ==> r.deep_view() == given.deep_view(),
        given.len() == 0 && entrypoint.len() > 0 ==> r.deep_view() == entrypoint.deep_view()
            + cmd.deep_view(),
        given.len() == 0 && entrypoint.len() == 0 && cmd.len() > 0 ==> r.deep_view()
            == cmd.deep_view(),
        given.len() == 0 && entrypoint.len() == 0 && cmd.len() == 0 ==> r.deep_view() == seq![
            "/bin/sh"@,
        ],
        r.len() > 0,
{
    assert(given.deep_view().len() == given.len());
    assert(entrypoint.deep_view().len() == entrypoint.len());
    assert(cmd.deep_view().len() == cmd.len());
    assert(r.deep_view().len() == r.len());
}

/// What is written for a container can be read again, and says what was asked for:
/// the command that is resolved from the request and the image, the directory of the
/// request, else of the image, else the root, the container's name, and a network of
/// its own exactly where it is isolated.
pub proof fn law_written_config_says_so(
    container_id: &str,
    rootfs_path: &str,
    command: Vec<String>,
    env_vars: Labels,
    image_config: Option<&str>,
    working_dir: Option<&str>,
    network_mode: NetworkMode,
    r: Result<String, String>,
)
    requires
        call_ensures(
            RootfsManager::generate_config_full,
            (
                container_id,
                rootfs_path,
                &command,
                &env_vars,
                image_config,
                working_dir,
                network_mode,
            ),
            r,
        ),
    ensures
        r is Ok,
        json_in(encode_utf8(r->Ok_0@)) is Some,
        ({
            let v = json_in(encode_utf8(r->Ok_0@))->0;
            let process = field(v, "process"@)->0;
            &&& text_field(v, "hostname"@) == Some(container_id@)
            &&& command.len() > 0 ==> texts_in(field(process, "args"@)) == command.deep_view()
            &&& command.len() == 0 && image_config is None ==> texts_in(field(process, "args"@))
                == seq!["/bin/sh"@]
            &&& working_dir matches Some(w) ==> text_field(process, "cwd"@) == Some(w@)
            &&& working_dir is None && image_config is None ==> text_field(process, "cwd"@) == Some(
                "/"@,
            )
            &&& field(field(v, "linux"@)->0, "namespaces"@) matches Some(JsonV::Array(a))
                && (a.contains(JsonV::Object(map!["type"@ => JsonV::Text("network"@)]))
                <==> network_mode == NetworkMode::Isolated)
        }),
{
    lemma_config_keys();
    law_network_only_if_isolated(network_mode);
    reveal_strlit("namespaces");
    reveal_strlit("maskedPaths");
    reveal_strlit("readonlyPaths");
    assert("namespaces"@.len() == 10 && "maskedPaths"@.len() == 11 && "readonlyPaths"@.len() == 13);
    assert(command.deep_view().len() == command.len());
    let image = image_json(image_config.deep_view());
    let args = resolved_command(
        command.deep_view(),
        run_texts(image, "Entrypoint"@),
        run_texts(image, "Cmd"@),
    );
    lemma_texts_kept(args);
}

proof fn lemma_image_vars(entries: Seq<Seq<char>>, i: int, k: Seq<char>, v: Seq<char>)
    requires
        0 <= i < entries.len(),
        split_first(entries[i], '=') == Some((k, v)),
        forall|j: int|
            i < j < entries.len() ==> match split_first(#[trigger] entries[j], '=') {
                Some(x) => x.0 != k,
                None => true,
            },
    ensures
        image_vars(entries).contains_key(k),
        image_vars(entries)[k] == v,
    decreases entries.len(),
{
    let n = entries.len() - 1;
    assert(entries[n] == entries.last());
    if i < n {
        let init = entries.drop_last();
        assert(init[i] == entries[i]);
        assert forall|j: int| i < j < init.len() implies match split_first(
            #[trigger] init[j],
            '=',
        ) {
            Some(x) => x.0 != k,
            None => true,
        } by {
            assert(init[j] == entries[j]);
        }
        lemma_image_vars(init, i, k, v);
    }
}

/// The environment of a container holds every variable of the request; every
/// variable of the image that the request does not set, by its last assignment,
/// except the host name; the container's id as the host name where the request sets
/// none; and a search path, a terminal and a home where neither sets them.
pub proof fn law_environment_is_layered(
    entries: Seq<Seq<char>>,
    id: Seq<char>,
    user: Map<Seq<char>, Seq<char>>,
    i: int,
    k: Seq<char>,
    v: Seq<char>,
)
    requires
        0 <= i < entries.len(),
        split_first(entries[i], '=') == Some((k, v)),
        forall|j: int|
            i < j < entries.len() ==> match split_first(#[trigger] entries[j], '=') {
                Some(x) => x.0 != k,
                None => true,
            },
    ensures
        user.contains_key(k) ==> container_vars(entries, id, user)[k] == user[k],
        !user.contains_key(k) && k != "HOSTNAME"@ ==> container_vars(entries, id, user)[k] == v,
        !user.contains_key("HOSTNAME"@) ==> container_vars(entries, id, user)["HOSTNAME"@] == id,
        container_vars(entries, id, user).contains_key(k),
{
    lemma_image_vars(entries, i, k, v);
    law_user_environment_wins(entries, id, user, k);
    reveal_strlit("HOSTNAME");
    reveal_strlit("PATH");
    reveal_strlit("TERM");
    reveal_strlit("HOME");
    assert("HOSTNAME"@.len() == 8 && "PATH"@.len() == 4 && "TERM"@.len() == 4 && "HOME"@.len()
        == 4);
    assert("HOME"@[0] == 'H' && "PATH"@[0] == 'P' && "TERM"@[0] == 'T');
}

/// Without an image that sets them, a container has the standard search path,
/// terminal and home, unless the request sets others.
pub proof fn law_standard_environment(id: Seq<char>, user: Map<Seq<char>, Seq<char>>)
    ensures
        !user.contains_key("PATH"@) ==> container_vars(Seq::empty(), id, user)["PATH"@]
            == "/usr/local/sbin:/usr/local/bin:/usr/sbin:/usr/bin:/sbin:/bin"@,
        !user.contains_key("TERM"@) ==> container_vars(Seq::empty(), id, user)["TERM"@]
            == "xterm"@,
        !user.contains_key("HOME"@) ==> container_vars(Seq::empty(), id, user)["HOME"@]
            == "/root"@,
        forall|k: Seq<char>| #[trigger]
            container_vars(Seq::empty(), id, user).contains_key(k) <==> user.contains_key(k) || k
                == "PATH"@ || k == "TERM"@ || k == "HOME"@ || k == "HOSTNAME"@,
{
    reveal_strlit("HOSTNAME");
    reveal_strlit("PATH");
    reveal_strlit("TERM");
    reveal_strlit("HOME");
    assert("HOSTNAME"@.len() == 8 && "PATH"@.len() == 4 && "TERM"@.len() == 4 && "HOME"@.len()
        == 4);
    assert("HOME"@[0] == 'H' && "PATH"@[0] == 'P' && "TERM"@[0] == 'T');
    assert(image_vars(Seq::empty()) == Map::<Seq<char>, Seq<char>>::empty());
}

/// What an image asks for stands in its section `config`, or in `Config` where that
/// is missing; an empty directory counts as none.
pub proof fn law_image_section(v: JsonV, c: JsonV, key: Seq<char>)
    ensures
        field(v, "config"@) == Some(c) ==> run_texts(Some(v), key) == texts_in(field(c, key)),
        field(v, "config"@) is None && field(v, "Config"@) == Some(c) ==> run_texts(Some(v), key)
            == texts_in(field(c, key)),
        field(v, "config"@) == Some(c) && (text_field(c, "WorkingDir"@) matches Some(w) && w.len()
            > 0) ==> workdir_of(Some(v)) == text_field(c, "WorkingDir"@),
        field(v, "config"@) == Some(c) && text_field(c, "WorkingDir"@) == Some(
            Seq::<char>::empty(),
        ) ==> workdir_of(Some(v)) is None,
        run_texts(None, key).len() == 0,
        workdir_of(None) is None,
{
}

/// A file of a layer is put below the root, except for the marks of deleted files;
/// a file that is already there is no failure.
pub proof fn law_layers_are_unpacked(
    rootfs: &str,
    entry_path: &str,
    already_there: bool,
    error: &str,
    r: Option<String>,
    f: Option<String>,
)
    requires
        call_ensures(unpack_entry, (rootfs, entry_path), r),
        call_ensures(unpack_failure, (already_there, entry_path, error), f),
    ensures
        r is None <==> file_name_of(entry_path@) is Some && has_prefix(
            file_name_of(entry_path@)->0,
            ".wh."@,
        ),
        r matches Some(p) ==> p@ == path_join(rootfs@, entry_path@),
        f is None <==> already_there,
{
}

proof fn lemma_kept_layers(files: Seq<Seq<char>>, name: Seq<char>)
    ensures
        files.filter_map(layer_rule()).contains(name) <==> files.contains(name) && is_layer(name),
{
    let f = layer_rule();
    if files.filter_map(f).contains(name) {
        files.lemma_filter_map_contains(f, name);
        let k = choose|k: int| 0 <= k < files.len() && #[trigger] f(files[k]) == Some(name);
        assert(files[k] == name);
    }
    if files.contains(name) && is_layer(name) {
        let k = choose|k: int| 0 <= k < files.len() && files[k] == name;
        lemma_filter_map_has(files, f, k);
    }
}

/// Layers are unpacked in the order of their names, every layer of the directory and
/// nothing else; without the directory nothing is.
pub proof fn law_layers_in_order(
    layers_dir: &str,
    files: Option<&Vec<String>>,
    r: Result<Vec<String>, String>,
    name: Seq<char>,
)
    requires
        call_ensures(layers_to_extract, (layers_dir, files), r),
    ensures
        r is Ok <==> files is Some,
        r matches Ok(l) ==> {
            &&& l.deep_view().contains(name) <==> files->0.deep_view().contains(name) && name.len()
                > 3 && has_suffix(name, ".gz"@)
            &&& forall|i: int, j: int|
                0 <= i < j < l.len() ==> !text_lt(
                    #[trigger] l.deep_view()[j],
                    #[trigger] l.deep_view()[i],
                )
        },
{
    if r is Ok {
        let l = r->Ok_0.deep_view();
        let kept = files->0.deep_view().filter_map(layer_rule());
        lemma_kept_layers(files->0.deep_view(), name);
        l.to_multiset_ensures();
        kept.to_multiset_ensures();
        assert(l.contains(name) <==> l.to_multiset().count(name) > 0);
        assert(kept.contains(name) <==> kept.to_multiset().count(name) > 0);
        assert(l.len() == r->Ok_0.len());
    }
}

/// The environment of a container lists each variable once, as its name, an equals sign
/// and its value: whatever the user sets as the user sets it, the host name after the
/// container where the user sets none, and nothing that is not one of its variables.
pub proof fn law_environment_is_written(
    image_env: Vec<String>,
    id: &str,
    user: Labels,
    k: Seq<char>,
    r: Vec<String>,
)
    requires
        call_ensures(container_env, (&image_env, id, &user), r),
    ensures
        user.deep_view().contains_key(k) ==> r.deep_view().contains(k + "="@ + user.deep_view()[k]),
        !user.deep_view().contains_key("HOSTNAME"@) ==> r.deep_view().contains(
            "HOSTNAME"@ + "="@ + id@,
        ),
        ({
            let vars = container_vars(image_env.deep_view(), id@, user.deep_view());
            &&& vars.contains_key(k) ==> r.deep_view().contains(k + "="@ + vars[k])
            &&& forall|i: int|
                0 <= i < r.len() ==> exists|n: Seq<char>| #[trigger]
                    vars.contains_key(n) && (#[trigger] r[i])@ == n + "="@ + vars[n]
        }),
{
    let vars = container_vars(image_env.deep_view(), id@, user.deep_view());
    let order = choose|order: Seq<(Seq<char>, Seq<char>)>| #[trigger]
        lists(order, vars) && r.deep_view() == rendered(order);
    crate::collections::lemma_map_of(order);
    assert forall|n: Seq<char>| #[trigger] vars.contains_key(n) implies r.deep_view().contains(
        n + "="@ + vars[n],
    ) by {
        let i = choose|i: int| 0 <= i < order.len() && (#[trigger] order[i]).0 == n;
        assert(r.deep_view()[i] == n + "="@ + vars[n]);
    }
    if user.deep_view().contains_key(k) {
        assert(vars.contains_key(k));
    }
    reveal_strlit("HOSTNAME");
    reveal_strlit("PATH");
    reveal_strlit("TERM");
    reveal_strlit("HOME");
    assert("HOSTNAME"@.len() == 8 && "PATH"@.len() == 4 && "TERM"@.len() == 4 && "HOME"@.len()
        == 4);
    assert(vars.contains_key("HOSTNAME"@));
    assert forall|i: int| 0 <= i < r.len() implies exists|n: Seq<char>| #[trigger]
        vars.contains_key(n) && (#[trigger] r[i])@ == n + "="@ + vars[n] by {
        assert(r.deep_view()[i] == r[i]@);
        assert(vars.contains_key(order[i].0));
    }
}

/// A configuration without an image runs the given command, or a shell where none is
/// given, in the root directory and in the network of the host.
pub proof fn law_plain_config_says_so(
    container_id: &str,
    rootfs_path: &str,
    command: Vec<String>,
    env_vars: Labels,
    r: Result<String, String>,
)
    requires
        call_ensures(
            RootfsManager::generate_config,
            (container_id, rootfs_path, &command, &env_vars),
            r,
        ),
    ensures
        r is Ok,
        json_in(encode_utf8(r->Ok_0@)) is Some,
        ({
            let v = json_in(encode_utf8(r->Ok_0@))->0;
            let process = field(v, "process"@)->0;
            &&& text_field(v, "hostname"@) == Some(container_id@)
            &&& command.len() > 0 ==> texts_in(field(process, "args"@)) == command.deep_view()
            &&& command.len() == 0 ==> texts_in(field(process, "args"@)) == seq!["/bin/sh"@]
            &&& text_field(process, "cwd"@) == Some("/"@)
            &&& field(field(v, "linux"@)->0, "namespaces"@) matches Some(JsonV::Array(a))
                && !a.contains(JsonV::Object(map!["type"@ => JsonV::Text("network"@)]))
        }),
{
    lemma_config_keys();
    law_network_only_if_isolated(NetworkMode::Host);
    reveal_strlit("namespaces");
    reveal_strlit("maskedPaths");
    reveal_strlit("readonlyPaths");
    assert("namespaces"@.len() == 10 && "maskedPaths"@.len() == 11 && "readonlyPaths"@.len() == 13);
    assert(command.deep_view().len() == command.len());
    lemma_texts_kept(resolved_command(command.deep_view(), Seq::empty(), Seq::empty()));
}

/// What an image says is read from its configuration: the command, the environment and
/// the working directory out of its section; a configuration that is missing or no JSON
/// says nothing.
pub proof fn law_image_is_read(
    data: Option<&str>,
    v: JsonV,
    c: JsonV,
    command: (Vec<String>, Vec<String>),
    env: Vec<String>,
    dir: Option<String>,
)
    requires
        call_ensures(parse_image_config, (data,), command),
        call_ensures(parse_image_env, (data,), env),
        call_ensures(parse_image_workdir, (data,), dir),
    ensures
        (data matches Some(d) && json_in(encode_utf8(d@)) == Some(v)) && field(v, "config"@) == Some(
            c,
        ) ==> {
            &&& command.0.deep_view() == texts_in(field(c, "Entrypoint"@))
            &&& command.1.deep_view() == texts_in(field(c, "Cmd"@))
            &&& env.deep_view() == texts_in(field(c, "Env"@))
            &&& (text_field(c, "WorkingDir"@) matches Some(w) && w.len() > 0) ==> dir.deep_view()
                == text_field(c, "WorkingDir"@)
        },
        (data is None || json_in(encode_utf8(data->0@)) is None) ==> command.0.len() == 0
            && command.1.len() == 0 && env.len() == 0 && dir is None,
{
    assert(command.0.deep_view().len() == command.0.len());
    assert(command.1.deep_view().len() == command.1.len());
    assert(env.deep_view().len() == env.len());
    if data is Some {
        assert(data.deep_view() == Some(data->0@));
    }
}

} // verus!
