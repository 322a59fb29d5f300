//! Finding and downloading Firecracker.
use vstd::prelude::*;
use vstd::string::*;
use crate::container::backend::file_name;
#[allow(unused_imports)]
use crate::container::backend::file_name_of;
use crate::json::{text, to_pretty, Fields};
#[allow(unused_imports)]
use crate::json::{writes, JsonV};
use crate::keys::join_path;
#[allow(unused_imports)]
use crate::keys::path_join;
use crate::split::trim;
#[allow(unused_imports)]
use crate::split::trimmed;
use crate::text::{cat, cat4, cat5, str_eq};
use crate::time::rfc3339;
#[allow(unused_imports)]
use crate::time::{rfc3339_text, valid_time};
#[allow(unused_imports)]
use crate::json::{lemma_plain_key, plain_key};

verus! {

broadcast use crate::json::group_plain;

/// The keys of the objects that are written here are plain.
proof fn lemma_keys()
    ensures
        plain_key("arch"@),
        plain_key("downloaded_at"@),
        plain_key("version"@),
{
    reveal_strlit("arch");
    reveal_strlit("downloaded_at");
    reveal_strlit("version");
    lemma_plain_key("arch"@);
    lemma_plain_key("downloaded_at"@);
    lemma_plain_key("version"@);
}

/// Manages Firecracker and jailer binary discovery and download.
pub struct FcInstaller;

/// Where the release archive is.
pub open spec fn release_url(version: Seq<char>, arch: Seq<char>) -> Seq<char> {
    "https://github.com/firecracker-microvm/firecracker/releases/download/v"@ + version
        + "/firecracker-v"@ + version + "-"@ + arch + ".tgz"@
}

/// The name of a program in the release archive.
pub open spec fn archive_name(program: Seq<char>, version: Seq<char>, arch: Seq<char>) -> Seq<
    char,
> {
    program + "-v"@ + version + "-"@ + arch
}

/// What an entry of the release archive is.
#[derive(Debug, Clone, Copy, PartialEq, Eq, Structural)]
pub enum ArchiveEntry {
    /// The Firecracker binary.
    Firecracker,
    /// The jailer binary.
    Jailer,
    /// Anything else.
    Other,
}

/// What an entry of the release archive is, by its file name.
pub open spec fn entry_kind(path: Seq<char>, version: Seq<char>, arch: Seq<char>) -> ArchiveEntry {
    let name = match file_name_of(path) {
        Some(n) => n,
        None => Seq::empty(),
    };
    if name == archive_name("firecracker"@, version, arch) {
        ArchiveEntry::Firecracker
    } else if name == archive_name("jailer"@, version, arch) {
        ArchiveEntry::Jailer
    } else {
        ArchiveEntry::Other
    }
}

/// The path that `which` has found, if it has.
pub open spec fn which_path(success: bool, stdout: Seq<char>) -> Option<Seq<char>> {
    if success && trimmed(stdout).len() > 0 {
        Some(trimmed(stdout))
    } else {
        None
    }
}

/// Where a binary comes from.
#[derive(Debug)]
pub enum Source {
    /// It is there.
    At(String),
    /// It has to be downloaded.
    Download,
}

impl FcInstaller {
    /// Whether KVM can be used: the device is there and can be opened.
    pub fn kvm_available(present: bool, opens: bool) -> (r: bool)
        ensures
            r == (present && opens),
    {
        present && opens
    }

    /// The path that `which` has found.
    pub fn found_by_which(success: bool, stdout: &str) -> (r: Option<String>)
        ensures
            r.deep_view() == which_path(success, stdout@),
    {
        let t: String = trim(stdout);
        if success && !t.as_str().is_empty() {
            Some(t)
        } else {
            None
        }
    }

    /// The standard places of a binary, in the order of the search.
    pub fn standard_places(name: &str) -> (r: Vec<String>)
        ensures
            r.deep_view() == seq![
                path_join("/usr/local/bin"@, name@),
                path_join("/usr/bin"@, name@),
                path_join("/bin"@, name@),
                path_join("/usr/sbin"@, name@),
            ],
    {
        let mut out: Vec<String> = Vec::new();
        out.push(join_path("/usr/local/bin", name));
        out.push(join_path("/usr/bin", name));
        out.push(join_path("/bin", name));
        out.push(join_path("/usr/sbin", name));
        assert(out.deep_view() =~= seq![
            path_join("/usr/local/bin"@, name@),
            path_join("/usr/bin"@, name@),
            path_join("/bin"@, name@),
            path_join("/usr/sbin"@, name@),
        ]);
        out
    }

    /// Finds a binary by what `which` has found and which of the standard
    /// places exist.
    pub fn find_in_path(name: &str, which: Option<String>, present: &Vec<bool>) -> (r: Option<
        String,
    >)
        ensures
            r.deep_view() == match which {
                Some(p) => Some(p@),
                None => crate::container::vm::first_present(
                    seq![
                        path_join("/usr/local/bin"@, name@),
                        path_join("/usr/bin"@, name@),
                        path_join("/bin"@, name@),
                        path_join("/usr/sbin"@, name@),
                    ],
                    present@,
                ),
            },
    {
        match which {
            Some(p) => Some(p),
            None => crate::container::vm::pick_present(&Self::standard_places(name), present),
        }
    }

    /// Decides where Firecracker comes from: the search path, the install
    /// directory, else a download.
    pub fn ensure_firecracker(in_path: Option<String>, install_dir: &str, installed: bool) -> (r:
        Source)
        ensures
            match in_path {
                Some(p) => r matches Source::At(x) && x@ == p@,
                None => if installed {
                    r matches Source::At(x) && x@ == path_join(install_dir@, "firecracker"@)
                } else {
                    r is Download
                },
            },
    {
        match in_path {
            Some(p) => Source::At(p),
            None => if installed {
                Source::At(join_path(install_dir, "firecracker"))
            } else {
                Source::Download
            },
        }
    }

    /// Decides where the jailer is, if anywhere: it is optional.
    pub fn ensure_jailer(in_path: Option<String>, install_dir: &str, installed: bool) -> (r: Option<
        String,
    >)
        ensures
            r.deep_view() == match in_path {
                Some(p) => Some(p@),
                None => if installed {
                    Some(path_join(install_dir@, "jailer"@))
                } else {
                    None
                },
            },
    {
        match in_path {
            Some(p) => Some(p),
            None => if installed {
                Some(join_path(install_dir, "jailer"))
            } else {
                None
            },
        }
    }

    /// Where the release archive is.
    pub fn download_url(version: &str, arch: &str) -> (r: String)
        ensures
            r@ == release_url(version@, arch@),
    {
        let mut s: String = cat5(
            "https://github.com/firecracker-microvm/firecracker/releases/download/v",
            version,
            "/firecracker-v",
            version,
            "-",
        );
        s.append(arch);
        s.append(".tgz");
        s
    }

    /// Tells what an entry of the release archive is.
    pub fn classify(path: &str, version: &str, arch: &str) -> (r: ArchiveEntry)
        ensures
            r == entry_kind(path@, version@, arch@),
    {
        let name: String = match file_name(path) {
            Some(n) => n,
            None => String::new(),
        };
        let fc: String = cat5("firecracker", "-v", version, "-", arch);
        let jailer: String = cat5("jailer", "-v", version, "-", arch);
        if str_eq(name.as_str(), fc.as_str()) {
            ArchiveEntry::Firecracker
        } else if str_eq(name.as_str(), jailer.as_str()) {
            ArchiveEntry::Jailer
        } else {
            ArchiveEntry::Other
        }
    }

    /// What is said where the download was refused.
    pub fn download_failure(status: &str, url: &str) -> (r: String)
        ensures
            r@ == "Firecracker download failed: HTTP "@ + status@ + " for "@ + url@,
    {
        cat4("Firecracker download failed: HTTP ", status, " for ", url)
    }

    /// What is said where the archive holds no Firecracker.
    pub fn not_in_archive(version: &str, arch: &str) -> (r: String)
        ensures
            r@ == "Firecracker binary not found in archive (looked for "@ + archive_name(
                "firecracker"@,
                version@,
                arch@,
            ) + ")"@,
    {
        let name: String = cat5("firecracker", "-v", version, "-", arch);
        let mut s: String = cat("Firecracker binary not found in archive (looked for ", name.as_str());
        s.append(")");
        s
    }

    /// The text of the file that records what was downloaded, and when.
    pub fn version_info(version: &str, arch: &str, now: i128) -> (r: String)
        requires
            valid_time(now),
        ensures
            writes(
                r@,
                JsonV::Object(
                    map![
                        "version"@ => JsonV::Text(version@),
                        "arch"@ => JsonV::Text(arch@),
                        "downloaded_at"@ => JsonV::Text(rfc3339_text(now))
                    ],
                ),
            ),
    {
        proof {
            lemma_keys();
        }
        let t: String = rfc3339(now);
        to_pretty(
            Fields::new().with("version", text(version)).with("arch", text(arch)).with(
                "downloaded_at",
                text(t.as_str()),
            ).object(),
        )
    }
}

/// Firecracker is taken from the path where it is there, else from where it was
/// installed, and is downloaded otherwise; the jailer is taken likewise, and done
/// without otherwise. Both need a machine that can be virtualized.
pub proof fn law_programs_are_found(
    in_path: Option<String>,
    install_dir: &str,
    installed: bool,
    r: Source,
    j: Option<String>,
)
    requires
        call_ensures(FcInstaller::ensure_firecracker, (in_path, install_dir, installed), r),
        call_ensures(FcInstaller::ensure_jailer, (in_path, install_dir, installed), j),
    ensures
        in_path matches Some(p) ==> r is At && r->At_0@ == p@ && j is Some && j->0@ == p@,
        in_path is None && installed ==> r is At && r->At_0@ == path_join(
            install_dir@,
            "firecracker"@,
        ) && j is Some && j->0@ == path_join(install_dir@, "jailer"@),
        in_path is None && !installed ==> r is Download && j is None,
{
}

/// Virtualization needs the device to be there and to open.
pub proof fn law_device_must_open(present: bool, opens: bool, r: bool)
    requires
        call_ensures(FcInstaller::kvm_available, (present, opens), r),
    ensures
        r <==> present && opens,
{
}

/// Of an archive the files are told apart by their names, which carry the program,
/// the version and the architecture; no file is taken for both programs.
pub proof fn law_archive_entries(
    path: &str,
    version: &str,
    arch: &str,
    r: ArchiveEntry,
)
    requires
        call_ensures(FcInstaller::classify, (path, version, arch), r),
        file_name_of(path@) is Some,
    ensures
        r == ArchiveEntry::Firecracker <==> file_name_of(path@)->0 == "firecracker"@ + "-v"@
            + version@ + "-"@ + arch@,
        r == ArchiveEntry::Jailer <==> file_name_of(path@)->0 == "jailer"@ + "-v"@ + version@ + "-"@
            + arch@,
{
    reveal_strlit("firecracker");
    reveal_strlit("jailer");
    let a = archive_name("firecracker"@, version@, arch@);
    let b = archive_name("jailer"@, version@, arch@);
    assert(a.len() == b.len() + 5);
}

/// The archive of a version for an architecture is fetched by both names.
pub proof fn law_release_is_fetched(version: &str, arch: &str, r: String)
    requires
        call_ensures(FcInstaller::download_url, (version, arch), r),
    ensures
        r@ == "https://github.com/firecracker-microvm/firecracker/releases/download/v"@ + version@
            + "/firecracker-v"@ + version@ + "-"@ + arch@ + ".tgz"@,
{
}

/// A search has found a program exactly where it went well and names a path.
pub proof fn law_search_must_name_a_path(success: bool, stdout: &str, r: Option<String>)
    requires
        call_ensures(FcInstaller::found_by_which, (success, stdout), r),
    ensures
        r is Some <==> success && trimmed(stdout@).len() > 0,
        r is Some ==> r->0@ == trimmed(stdout@),
{
}

} // verus!
