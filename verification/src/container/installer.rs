//! Finding and downloading OCI runtimes.
use vstd::prelude::*;
use vstd::string::*;
use crate::constants::{CRUN_VERSION, DEFAULT_RUNTIME, YOUKI_VERSION};
use crate::container::backend::file_name;
#[allow(unused_imports)]
use crate::container::backend::file_name_of;
use crate::json::{parse_text, read_value, text, to_value, with_field, write_pretty, Fields, Json};
#[allow(unused_imports)]
use crate::json::{
    field,
    fields_of,
    is_plain,
    json_in,
    lemma_plain_deeper,
    lemma_plain_field,
    pretty_text,
    value_of,
    JsonV,
};
use crate::keys::join_path;
#[allow(unused_imports)]
use crate::keys::path_join;
use crate::split::trim;
#[allow(unused_imports)]
use crate::split::trimmed;
use crate::text::{cat, cat3, cat5, str_eq, trim_start_matches};
#[allow(unused_imports)]
use crate::text::without_leading;
use crate::time::rfc3339;
#[allow(unused_imports)]
use crate::time::{rfc3339_text, valid_time};
#[allow(unused_imports)]
use vstd::utf8::encode_utf8;
#[allow(unused_imports)]
use crate::json::{lemma_plain_key, plain_key};

verus! {

broadcast use crate::json::group_plain;

/// The keys of the objects that are written here are plain.
proof fn lemma_keys()
    ensures
        plain_key("arch"@),
        plain_key("installed_at"@),
        plain_key("version"@),
{
    reveal_strlit("arch");
    reveal_strlit("installed_at");
    reveal_strlit("version");
    lemma_plain_key("arch"@);
    lemma_plain_key("installed_at"@);
    lemma_plain_key("version"@);
}

/// Finds and downloads OCI runtimes (youki, crun) on Linux.
pub struct RuntimeInstaller;

/// All OCI runtimes that are supported.
pub open spec fn supported() -> Seq<Seq<char>> {
    seq!["youki"@, "crun"@]
}

/// Whether a name is not the given one.
pub open spec fn other_than(name: Seq<char>) -> spec_fn(Seq<char>) -> bool {
    |r: Seq<char>| r != name
}

/// The order in which runtimes are looked for: the preferred one first, then
/// the other supported ones.
pub open spec fn runtime_order(preferred: Seq<char>) -> Seq<Seq<char>> {
    seq![preferred] + supported().filter(other_than(preferred))
}

/// The runtime to prefer.
pub open spec fn preferred_runtime(preferred: Option<Seq<char>>) -> Seq<char> {
    match preferred {
        Some(p) => p,
        None => DEFAULT_RUNTIME@,
    }
}

/// What comes next in the search for a runtime.
#[derive(Debug)]
pub enum RuntimeStep {
    /// There is one, at this path.
    Found(String),
    /// This one is to be downloaded.
    Download(String),
    /// There is none, and none could be downloaded.
    NotFound,
}

/// The contents of a [`RuntimeStep`].
pub enum RuntimeStepV {
    Found(Seq<char>),
    Download(Seq<char>),
    NotFound,
}

impl DeepView for RuntimeStep {
    type V = RuntimeStepV;

    open spec fn deep_view(&self) -> RuntimeStepV {
        match self {
            RuntimeStep::Found(p) => RuntimeStepV::Found(p@),
            RuntimeStep::Download(n) => RuntimeStepV::Download(n@),
            RuntimeStep::NotFound => RuntimeStepV::NotFound,
        }
    }
}

/// What comes next after the first `failed` runtimes of an order were neither
/// found nor could be downloaded: the next one is taken from the search path, else
/// from the install directory, else it is downloaded.
pub open spec fn runtime_step(
    order: Seq<Seq<char>>,
    which: Seq<(bool, Seq<char>)>,
    dir: Seq<char>,
    present: Seq<bool>,
    failed: int,
) -> RuntimeStepV {
    if failed >= order.len() {
        RuntimeStepV::NotFound
    } else if failed < which.len() && which[failed].0 {
        RuntimeStepV::Found(trimmed(which[failed].1))
    } else if failed < present.len() && present[failed] {
        RuntimeStepV::Found(path_join(dir, order[failed]))
    } else {
        RuntimeStepV::Download(order[failed])
    }
}

/// Where a runtime is downloaded from.
#[derive(Debug)]
pub enum RuntimeSource {
    /// A tar archive.
    Archive(String),
    /// The binary itself.
    Binary(String),
    /// There is none for this architecture.
    Unsupported(String),
    /// There is no prebuilt binary.
    NoBinary,
}

/// The contents of a [`RuntimeSource`].
pub enum RuntimeSourceV {
    Archive(Seq<char>),
    Binary(Seq<char>),
    Unsupported(Seq<char>),
    NoBinary,
}

impl DeepView for RuntimeSource {
    type V = RuntimeSourceV;

    open spec fn deep_view(&self) -> RuntimeSourceV {
        match self {
            RuntimeSource::Archive(u) => RuntimeSourceV::Archive(u@),
            RuntimeSource::Binary(u) => RuntimeSourceV::Binary(u@),
            RuntimeSource::Unsupported(e) => RuntimeSourceV::Unsupported(e@),
            RuntimeSource::NoBinary => RuntimeSourceV::NoBinary,
        }
    }
}

/// Where a runtime is downloaded from for an architecture.
pub open spec fn runtime_source(name: Seq<char>, arch: Seq<char>) -> RuntimeSourceV {
    if name == "youki"@ {
        if arch == "x86_64"@ || arch == "aarch64"@ {
            RuntimeSourceV::Archive(
                "https://github.com/youki-dev/youki/releases/download/"@ + YOUKI_VERSION@
                    + "/youki-"@ + without_leading(YOUKI_VERSION@, "v"@) + "-"@ + arch
                    + "-musl.tar.gz"@,
            )
        } else {
            RuntimeSourceV::Unsupported("Unsupported architecture for youki: "@ + arch)
        }
    } else if name == "crun"@ {
        if arch == "x86_64"@ || arch == "aarch64"@ {
            RuntimeSourceV::Binary(
                "https://github.com/containers/crun/releases/download/"@ + CRUN_VERSION@ + "/crun-"@
                    + CRUN_VERSION@ + "-linux-"@ + (if arch == "x86_64"@ {
                    "amd64"@
                } else {
                    "arm64"@
                }),
            )
        } else {
            RuntimeSourceV::Unsupported("Unsupported architecture for crun: "@ + arch)
        }
    } else {
        RuntimeSourceV::NoBinary
    }
}

/// The JSON value in a record of versions: empty where there is none or it
/// cannot be read.
pub open spec fn recorded(data: Option<Seq<char>>) -> JsonV {
    match data {
        Some(d) => match json_in(encode_utf8(d)) {
            Some(v) => v,
            None => JsonV::Object(Map::empty()),
        },
        None => JsonV::Object(Map::empty()),
    }
}

/// A record of versions with the entry of one runtime set.
pub open spec fn with_version(record: JsonV, name: Seq<char>, entry: JsonV) -> JsonV {
    JsonV::Object(fields_of(record).insert(name, entry))
}

/// What is recorded of a runtime.
pub open spec fn version_entry(version: Seq<char>, at: Seq<char>, arch: Seq<char>) -> JsonV {
    JsonV::Object(
        map![
            "version"@ => JsonV::Text(version),
            "installed_at"@ => JsonV::Text(at),
            "arch"@ => JsonV::Text(arch)
        ],
    )
}

impl RuntimeInstaller {
    /// The order in which runtimes are looked for and downloaded.
    pub fn search_order(preferred: Option<&str>) -> (r: Vec<String>)
        ensures
            r.deep_view() == runtime_order(preferred_runtime(preferred.deep_view())),
    {
        let p: &str = match preferred {
            Some(p) => p,
            None => DEFAULT_RUNTIME,
        };
        let mut out: Vec<String> = Vec::new();
        out.push(p.to_owned());
        if !str_eq("youki", p) {
            out.push("youki".to_owned());
        }
        if !str_eq("crun", p) {
            out.push("crun".to_owned());
        }
        proof {
            let f = other_than(p@);
            let s = supported();
            let a = seq!["youki"@];
            assert(s.drop_last() =~= a);
            assert(a.drop_last() =~= Seq::<Seq<char>>::empty());
            reveal(Seq::filter);
            assert(Seq::<Seq<char>>::empty().filter(f) =~= Seq::<Seq<char>>::empty());
            assert(a.filter(f) =~= if f("youki"@) {
                seq!["youki"@]
            } else {
                Seq::empty()
            });
            assert(s.filter(f) =~= a.filter(f) + (if f("crun"@) {
                seq!["crun"@]
            } else {
                Seq::empty()
            }));
            assert(out.deep_view() =~= seq![p@] + s.filter(f));
        }
        out
    }

    /// Ensures that an OCI runtime is there, by what `which` has said of each in
    /// the order of the search, by which of them are in the install directory,
    /// and by how many of them, from the first on, could not be downloaded.
    pub fn ensure_runtime(
        preferred: Option<&str>,
        which: &Vec<(bool, String)>,
        install_dir: &str,
        present: &Vec<bool>,
        failed: usize,
    ) -> (r: RuntimeStep)
        ensures
            r.deep_view() == runtime_step(
                runtime_order(preferred_runtime(preferred.deep_view())),
                which.deep_view(),
                install_dir@,
                present@,
                failed as int,
            ),
    {
        let order: Vec<String> = Self::search_order(preferred);
        let ghost o = order.deep_view();
        let ghost w = which.deep_view();
        assert(w.len() == which@.len() && o.len() == order@.len());
        if failed >= order.len() {
            return RuntimeStep::NotFound;
        }
        assert(o[failed as int] == order@[failed as int]@);
        if failed < which.len() {
            assert(w[failed as int] == (which@[failed as int].0, which@[failed as int].1@));
            if which[failed].0 {
                return RuntimeStep::Found(trim(which[failed].1.as_str()));
            }
        }
        if failed < present.len() && present[failed] {
            return RuntimeStep::Found(join_path(install_dir, order[failed].as_str()));
        }
        RuntimeStep::Download(order[failed].clone())
    }

    /// The install directory: the system's where it can be written to, else one
    /// in the home directory, if there is a home.
    pub fn install_dir(system_writable: bool, home: Option<&str>) -> (r: String)
        ensures
            r@ == if system_writable {
                "/usr/local/bin/k3rs-runtime"@
            } else {
                match home {
                    Some(h) => path_join(h@, ".k3rs/bin"@),
                    None => "/usr/local/bin/k3rs-runtime"@,
                }
            },
    {
        if system_writable {
            "/usr/local/bin/k3rs-runtime".to_owned()
        } else {
            match home {
                Some(h) => join_path(h, ".k3rs/bin"),
                None => "/usr/local/bin/k3rs-runtime".to_owned(),
            }
        }
    }

    /// Where a runtime is downloaded from.
    pub fn source(name: &str, arch: &str) -> (r: RuntimeSource)
        ensures
            r.deep_view() == runtime_source(name@, arch@),
    {
        let intel: bool = str_eq(arch, "x86_64");
        let known: bool = intel || str_eq(arch, "aarch64");
        if str_eq(name, "youki") {
            if known {
                proof {
                    reveal_strlit("v");
                }
                let number: String = trim_start_matches(YOUKI_VERSION, "v");
                let mut s: String = cat5(
                    "https://github.com/youki-dev/youki/releases/download/",
                    YOUKI_VERSION,
                    "/youki-",
                    number.as_str(),
                    "-",
                );
                s.append(arch);
                s.append("-musl.tar.gz");
                RuntimeSource::Archive(s)
            } else {
                RuntimeSource::Unsupported(cat("Unsupported architecture for youki: ", arch))
            }
        } else if str_eq(name, "crun") {
            if known {
                let mut s: String = cat5(
                    "https://github.com/containers/crun/releases/download/",
                    CRUN_VERSION,
                    "/crun-",
                    CRUN_VERSION,
                    "-linux-",
                );
                s.append(
                    if intel {
                        "amd64"
                    } else {
                        "arm64"
                    },
                );
                RuntimeSource::Binary(s)
            } else {
                RuntimeSource::Unsupported(cat("Unsupported architecture for crun: ", arch))
            }
        } else {
            RuntimeSource::NoBinary
        }
    }

    /// What is said where a download was refused.
    pub fn download_failure(status: &str, url: &str) -> (r: String)
        ensures
            r@ == "HTTP "@ + status@ + ": "@ + url@,
    {
        let mut s: String = cat3("HTTP ", status, ": ");
        s.append(url);
        s
    }

    /// What is said where no runtime could be downloaded.
    pub fn no_runtime() -> (r: &'static str)
        ensures
            r@ == "Failed to auto-download any OCI runtime. Install youki or crun manually."@,
    {
        "Failed to auto-download any OCI runtime. Install youki or crun manually."
    }

    /// Where an entry of youki's archive is unpacked to, and whether it is youki
    /// itself, after which nothing else is unpacked.
    pub fn unpack_to(install_dir: &str, entry_path: &str) -> (r: (String, bool))
        ensures
            r.0@ == path_join(
                install_dir@,
                match file_name_of(entry_path@) {
                    Some(n) => n,
                    None => Seq::empty(),
                },
            ),
            r.1 == (file_name_of(entry_path@) == Some("youki"@)),
    {
        match file_name(entry_path) {
            Some(n) => {
                let is_youki: bool = str_eq(n.as_str(), "youki");
                (join_path(install_dir, n.as_str()), is_youki)
            },
            None => {
                let e: String = String::new();
                assert(e@ =~= Seq::<char>::empty());
                (join_path(install_dir, e.as_str()), false)
            },
        }
    }

    /// The text of the record of versions after a runtime was installed: what was
    /// recorded of others stays. There is none where the old record is JSON but
    /// neither an object nor null. Where the old one has integers only, no key
    /// that serde_json reserves for itself, and is nested less than 128 deep, and
    /// the name is no such key, the text reads as the new record.
    pub fn save_version_info(
        data: Option<&str>,
        name: &str,
        version: &str,
        now: i128,
        arch: &str,
    ) -> (r: Option<String>)
        requires
            valid_time(now),
        ensures
            r.deep_view() == match recorded(data.deep_view()) {
                JsonV::Object(_) | JsonV::Null => Some(
                    pretty_text(
                        with_version(
                            recorded(data.deep_view()),
                            name@,
                            version_entry(version@, rfc3339_text(now), arch@),
                        ),
                    ),
                ),
                _ => None,
            },
            r is Some && is_plain(recorded(data.deep_view()), 127) && plain_key(name@) ==> json_in(
                encode_utf8(r->0@),
            ) == Some(
                with_version(
                    recorded(data.deep_view()),
                    name@,
                    version_entry(version@, rfc3339_text(now), arch@),
                ),
            ),
    {
        proof {
            lemma_keys();
        }
        let at: String = rfc3339(now);
        let empty: serde_json::Value = to_value(Fields::new().object());
        let record: serde_json::Value = match data {
            Some(d) => match read_value(d.as_bytes()) {
                Some(v) => v,
                None => empty,
            },
            None => empty,
        };
        assert(value_of(record) == recorded(data.deep_view()));
        let entry: Json = Fields::new().with("version", text(version)).with(
            "installed_at",
            text(at.as_str()),
        ).with("arch", text(arch)).object();
        assert(entry.deep_view() == version_entry(version@, at@, arch@));
        let ghost e = entry.deep_view();
        proof {
            let m = fields_of(value_of(record));
            if is_plain(value_of(record), 127) && plain_key(name@) && (value_of(record) is Object
                || value_of(record) is Null) {
                assert(is_plain(JsonV::Object(m), 127));
                lemma_plain_deeper(e, 1, 126);
                lemma_plain_field(m, name@, e, 127);
            }
        }
        match with_field(record, name, to_value(entry)) {
            Some(v) => write_pretty(&v),
            None => None,
        }
    }

    /// What is recorded of the installed runtimes; none where the record is not
    /// JSON.
    pub fn get_installed_info(data: Option<&str>) -> (r: Option<Json>)
        ensures
            r.deep_view() == match data {
                Some(d) => json_in(encode_utf8(d@)),
                None => Some(JsonV::Object(Map::empty())),
            },
    {
        match data {
            Some(d) => parse_text(d),
            None => Some(Fields::new().object()),
        }
    }
}

/// A version that was recorded is found again, and what was recorded of other
/// runtimes is kept.
pub proof fn law_versions_are_kept(
    record: JsonV,
    name: Seq<char>,
    entry: JsonV,
    other: Seq<char>,
)
    requires
        other != name,
    ensures
        field(with_version(record, name, entry), name) == Some(entry),
        field(with_version(record, name, entry), other) == field(record, other),
{
}

/// The preferred runtime is always tried first, and every supported one is tried.
pub proof fn law_every_runtime_is_tried(preferred: Seq<char>, name: Seq<char>)
    requires
        supported().contains(name),
    ensures
        runtime_order(preferred)[0] == preferred,
        runtime_order(preferred).contains(name),
{
    let f = other_than(preferred);
    let o = runtime_order(preferred);
    if name == preferred {
        assert(o[0] == name);
    } else {
        let s = supported();
        let i = choose|i: int| 0 <= i < s.len() && s[i] == name;
        s.lemma_filter_contains(f, i);
        let t = s.filter(f);
        let j = choose|j: int| 0 <= j < t.len() && t[j] == name;
        assert(o[j + 1] == name);
    }
}

/// The preferred runtime is taken wherever it is, whatever is said of the others;
/// where it is nowhere it is downloaded before any other is looked at; and the
/// search gives up exactly when every runtime of its order has failed.
pub proof fn law_preferred_runtime_wins(
    preferred: Seq<char>,
    which: Seq<(bool, Seq<char>)>,
    dir: Seq<char>,
    present: Seq<bool>,
    failed: int,
)
    requires
        which.len() > 0,
        present.len() > 0,
        failed >= 0,
    ensures
        which[0].0 ==> runtime_step(runtime_order(preferred), which, dir, present, 0)
            == RuntimeStepV::Found(trimmed(which[0].1)),
        !which[0].0 && present[0] ==> runtime_step(
            runtime_order(preferred),
            which,
            dir,
            present,
            0,
        ) == RuntimeStepV::Found(path_join(dir, preferred)),
        !which[0].0 && !present[0] ==> runtime_step(
            runtime_order(preferred),
            which,
            dir,
            present,
            0,
        ) == RuntimeStepV::Download(preferred),
        (runtime_step(runtime_order(preferred), which, dir, present, failed) is NotFound) <==> failed
            >= runtime_order(preferred).len(),
{
    assert(runtime_order(preferred)[0] == preferred);
}

/// The runtimes are looked for in an order without repetition that begins with the
/// preferred one, or with youki where none is preferred, and that holds youki, crun
/// and nothing else but the preferred one.
pub proof fn law_search_order(preferred: Option<&str>, r: Vec<String>)
    requires
        call_ensures(RuntimeInstaller::search_order, (preferred,), r),
    ensures
        r.len() > 0,
        preferred matches Some(p) ==> r[0]@ == p@,
        preferred is None ==> r[0]@ == "youki"@,
        r.deep_view().contains("youki"@),
        r.deep_view().contains("crun"@),
        forall|i: int|
            0 < i < r.len() ==> (#[trigger] r[i])@ != r[0]@ && (r[i]@ == "youki"@ || r[i]@
                == "crun"@),
{
    let name = preferred_runtime(preferred.deep_view());
    let o = runtime_order(name);
    let s = supported();
    let f = other_than(name);
    let t = s.filter(f);
    assert(r.deep_view().len() == r.len());
    assert(r.deep_view()[0] == r[0]@);
    assert(s[0] == "youki"@ && s[1] == "crun"@);
    law_every_runtime_is_tried(name, "youki"@);
    law_every_runtime_is_tried(name, "crun"@);
    assert forall|i: int| 0 < i < r.len() implies (#[trigger] r[i])@ != r[0]@ && (r[i]@
        == "youki"@ || r[i]@ == "crun"@) by {
        assert(r.deep_view()[i] == r[i]@);
        assert(o[i] == t[i - 1]);
        assert(t.contains(t[i - 1]));
        s.lemma_filter_contains_rev(f, t[i - 1]);
    }
}

/// Each runtime of the order is looked for on the path first, then among the
/// installed ones, and is downloaded where it is in neither place, before the next
/// is looked at.
pub proof fn law_runtimes_are_looked_for_in_turn(
    preferred: Option<&str>,
    order: Vec<String>,
    which: Vec<(bool, String)>,
    install_dir: &str,
    present: Vec<bool>,
    failed: usize,
    r: RuntimeStep,
)
    requires
        call_ensures(RuntimeInstaller::search_order, (preferred,), order),
        call_ensures(
            RuntimeInstaller::ensure_runtime,
            (preferred, &which, install_dir, &present, failed),
            r,
        ),
        which.len() == order.len(),
        present.len() == order.len(),
    ensures
        failed >= order.len() <==> r is NotFound,
        failed < order.len() && which[failed as int].0 ==> r is Found && r->Found_0@ == trimmed(
            which[failed as int].1@,
        ),
        failed < order.len() && !which[failed as int].0 && present[failed as int] ==> r is Found
            && r->Found_0@ == path_join(install_dir@, order[failed as int]@),
        failed < order.len() && !which[failed as int].0 && !present[failed as int]
            ==> r is Download && r->Download_0@ == order[failed as int]@,
{
    assert(order.deep_view().len() == order.len());
    assert(which.deep_view().len() == which.len());
    if failed < order.len() {
        assert(order.deep_view()[failed as int] == order[failed as int]@);
        assert(which.deep_view()[failed as int] == which[failed as int].deep_view());
    }
    match r {
        RuntimeStep::Found(p) => {
            assert(r.deep_view() == RuntimeStepV::Found(p@));
        },
        RuntimeStep::Download(n) => {
            assert(r.deep_view() == RuntimeStepV::Download(n@));
        },
        RuntimeStep::NotFound => {},
    }
}

/// Youki and crun can be had for two architectures, as an archive and as a plain
/// binary; other architectures are refused by name, and of other runtimes there is
/// no binary.
pub proof fn law_sources_of_runtimes(name: &str, arch: &str, r: RuntimeSource)
    requires
        call_ensures(RuntimeInstaller::source, (name, arch), r),
    ensures
        ({
            let known = arch@ == "x86_64"@ || arch@ == "aarch64"@;
            &&& name@ == "youki"@ ==> (r is Archive <==> known) && (r is Unsupported <==> !known)
            &&& name@ == "crun"@ ==> (r is Binary <==> known) && (r is Unsupported <==> !known)
            &&& name@ != "youki"@ && name@ != "crun"@ ==> r is NoBinary
            &&& r matches RuntimeSource::Binary(u) ==> u@
                == "https://github.com/containers/crun/releases/download/"@ + CRUN_VERSION@
                + "/crun-"@ + CRUN_VERSION@ + "-linux-"@ + (if arch@ == "x86_64"@ {
                "amd64"@
            } else {
                "arm64"@
            })
            &&& r matches RuntimeSource::Archive(u) ==> u@
                == "https://github.com/youki-dev/youki/releases/download/"@ + YOUKI_VERSION@
                + "/youki-"@ + without_leading(YOUKI_VERSION@, "v"@) + "-"@ + arch@
                + "-musl.tar.gz"@
        }),
{
    reveal_strlit("youki");
    reveal_strlit("crun");
    assert("youki"@.len() != "crun"@.len());
    match r {
        RuntimeSource::Binary(u) => {
            assert(r.deep_view() == RuntimeSourceV::Binary(u@));
        },
        RuntimeSource::Archive(u) => {
            assert(r.deep_view() == RuntimeSourceV::Archive(u@));
        },
        _ => {},
    }
}

/// Runtimes are installed for the whole system where that can be written, else for
/// the user where there is one.
pub proof fn law_runtimes_are_installed(system_writable: bool, home: Option<&str>, r: String)
    requires
        call_ensures(RuntimeInstaller::install_dir, (system_writable, home), r),
    ensures
        system_writable || home is None ==> r@ == "/usr/local/bin/k3rs-runtime"@,
        !system_writable && home is Some ==> r@ == path_join(home->0@, ".k3rs/bin"@),
{
}

} // verus!
