//! Kernel and initrd of micro-VMs.
use vstd::prelude::*;
use vstd::string::*;
use crate::constants::{DATA_DIR, INITRD_FILENAME, KERNEL_FILENAME};
use crate::json::{text, to_pretty, Fields};
#[allow(unused_imports)]
use crate::json::{writes, JsonV};
use crate::keys::join_path;
#[allow(unused_imports)]
use crate::keys::path_join;
use crate::text::{cat, cat3, cat4, str_eq};
use crate::time::rfc3339;
#[allow(unused_imports)]
use crate::time::{rfc3339_text, valid_time};
#[allow(unused_imports)]
use crate::json::{lemma_plain_key, plain_key};

verus! {

broadcast use crate::json::group_plain;

/// The keys of the objects that are written here are plain.
proof fn lemma_keys()
    ensures
        plain_key("arch"@),
        plain_key("downloaded_at"@),
        plain_key("os"@),
        plain_key("source"@),
{
    reveal_strlit("arch");
    reveal_strlit("downloaded_at");
    reveal_strlit("os");
    reveal_strlit("source");
    lemma_plain_key("arch"@);
    lemma_plain_key("downloaded_at"@);
    lemma_plain_key("os"@);
    lemma_plain_key("source"@);
}

/// Manages kernel and initrd of micro-VM backends.
#[derive(Debug)]
pub struct KernelManager {
    /// Directory where kernel and initrd are stored.
    pub kernel_dir: String,
    /// Where to download them from, if anywhere.
    pub download_url: Option<String>,
}

/// The name that images use for an architecture.
pub open spec fn image_arch_of(arch: Seq<char>) -> Seq<char> {
    if arch == "aarch64"@ {
        "arm64"@
    } else if arch == "x86_64"@ {
        "amd64"@
    } else {
        arch
    }
}

/// Names an architecture as images do.
pub fn image_arch(arch: &str) -> (r: String)
    ensures
        r@ == image_arch_of(arch@),
{
    if str_eq(arch, "aarch64") {
        "arm64".to_owned()
    } else if str_eq(arch, "x86_64") {
        "amd64".to_owned()
    } else {
        arch.to_owned()
    }
}

/// How a file comes to be there.
#[derive(Debug)]
pub enum Provision {
    /// It is there.
    Present,
    /// It is to be downloaded from this URL.
    Download(String),
    /// It is missing.
    Missing,
}

/// The contents of a [`Provision`].
pub enum ProvisionV {
    Present,
    Download(Seq<char>),
    Missing,
}

impl DeepView for Provision {
    type V = ProvisionV;

    open spec fn deep_view(&self) -> ProvisionV {
        match self {
            Provision::Present => ProvisionV::Present,
            Provision::Download(u) => ProvisionV::Download(u@),
            Provision::Missing => ProvisionV::Missing,
        }
    }
}

impl KernelManager {
    /// The manager of the default directory.
    pub fn new() -> (r: Self)
        ensures
            r.kernel_dir@ == DATA_DIR@,
            r.download_url is None,
    {
        KernelManager { kernel_dir: DATA_DIR.to_owned(), download_url: None }
    }

    /// The manager of a directory.
    pub fn with_dir(dir: &str) -> (r: Self)
        ensures
            r.kernel_dir@ == dir@,
            r.download_url is None,
    {
        KernelManager { kernel_dir: dir.to_owned(), download_url: None }
    }

    /// Sets where kernel and initrd are downloaded from.
    pub fn with_download_url(self, url: &str) -> (r: Self)
        ensures
            r.kernel_dir@ == self.kernel_dir@,
            r.download_url.deep_view() == Some(url@),
    {
        KernelManager { kernel_dir: self.kernel_dir, download_url: Some(url.to_owned()) }
    }

    /// Path to the kernel binary.
    pub fn kernel_path(&self) -> (r: String)
        ensures
            r@ == path_join(self.kernel_dir@, KERNEL_FILENAME@),
    {
        join_path(self.kernel_dir.as_str(), KERNEL_FILENAME)
    }

    /// Path to the initrd image.
    pub fn initrd_path(&self) -> (r: String)
        ensures
            r@ == path_join(self.kernel_dir@, INITRD_FILENAME@),
    {
        join_path(self.kernel_dir.as_str(), INITRD_FILENAME)
    }

    /// Decides how the kernel comes to be there.
    pub fn provide_kernel(&self, present: bool, arch: &str) -> (r: Provision)
        ensures
            r.deep_view() == if present {
                ProvisionV::Present
            } else {
                match self.download_url {
                    Some(u) => ProvisionV::Download(u@ + "/vmlinux-"@ + image_arch_of(arch@)),
                    None => ProvisionV::Missing,
                }
            },
    {
        if present {
            Provision::Present
        } else {
            match &self.download_url {
                Some(u) => Provision::Download(
                    cat3(u.as_str(), "/vmlinux-", image_arch(arch).as_str()),
                ),
                None => Provision::Missing,
            }
        }
    }

    /// Decides how the initrd comes to be there.
    pub fn provide_initrd(&self, present: bool, arch: &str) -> (r: Provision)
        ensures
            r.deep_view() == if present {
                ProvisionV::Present
            } else {
                match self.download_url {
                    Some(u) => ProvisionV::Download(
                        u@ + "/initrd-"@ + image_arch_of(arch@) + ".img"@,
                    ),
                    None => ProvisionV::Missing,
                }
            },
    {
        if present {
            Provision::Present
        } else {
            match &self.download_url {
                Some(u) => Provision::Download(
                    cat4(u.as_str(), "/initrd-", image_arch(arch).as_str(), ".img"),
                ),
                None => Provision::Missing,
            }
        }
    }

    /// The paths of the kernel and, where both are there in the end, the initrd.
    /// The kernel's path is given even where it is missing.
    pub fn ensure_available(&self, kernel_ready: bool, initrd_ready: bool) -> (r: (
        String,
        Option<String>,
    ))
        ensures
            r.0@ == path_join(self.kernel_dir@, KERNEL_FILENAME@),
            r.1.deep_view() == if kernel_ready && initrd_ready {
                Some(path_join(self.kernel_dir@, INITRD_FILENAME@))
            } else {
                None
            },
    {
        let initrd: Option<String> = if kernel_ready && initrd_ready {
            Some(self.initrd_path())
        } else {
            None
        };
        (self.kernel_path(), initrd)
    }

    /// What the user is told where there is no kernel.
    pub fn setup_instructions(&self) -> (r: Vec<String>)
        ensures
            r.deep_view() == seq![
                "To use the VirtualizationBackend, place a Linux kernel at: "@ + path_join(
                    self.kernel_dir@,
                    KERNEL_FILENAME@,
                ),
                "Run `./scripts/build-kernel.sh` to build the kernel, or see `pkg/container/src/kernel.rs` for manual instructions"@,
            ],
    {
        let mut out: Vec<String> = Vec::new();
        out.push(
            cat(
                "To use the VirtualizationBackend, place a Linux kernel at: ",
                self.kernel_path().as_str(),
            ),
        );
        out.push(
            "Run `./scripts/build-kernel.sh` to build the kernel, or see `pkg/container/src/kernel.rs` for manual instructions".to_owned(),
        );
        assert(out.deep_view() =~= seq![
            "To use the VirtualizationBackend, place a Linux kernel at: "@ + path_join(
                self.kernel_dir@,
                KERNEL_FILENAME@,
            ),
            "Run `./scripts/build-kernel.sh` to build the kernel, or see `pkg/container/src/kernel.rs` for manual instructions"@,
        ]);
        out
    }

    /// What is said where a download was refused.
    pub fn download_failure(status: &str, url: &str) -> (r: String)
        ensures
            r@ == "Download failed: HTTP "@ + status@ + " for "@ + url@,
    {
        cat4("Download failed: HTTP ", status, " for ", url)
    }

    /// The file that records a download.
    pub fn info_path(&self) -> (r: String)
        ensures
            r@ == path_join(self.kernel_dir@, "kernel-info.json"@),
    {
        join_path(self.kernel_dir.as_str(), "kernel-info.json")
    }

    /// The text of the file that records a download.
    pub fn version_info(source_url: &str, now: i128, arch: &str, os: &str) -> (r: String)
        requires
            valid_time(now),
        ensures
            writes(
                r@,
                JsonV::Object(
                    map![
                        "source"@ => JsonV::Text(source_url@),
                        "downloaded_at"@ => JsonV::Text(rfc3339_text(now)),
                        "arch"@ => JsonV::Text(arch@),
                        "os"@ => JsonV::Text(os@)
                    ],
                ),
            ),
    {
        proof {
            lemma_keys();
        }
        let t: String = rfc3339(now);
        to_pretty(
            Fields::new().with("source", text(source_url)).with(
                "downloaded_at",
                text(t.as_str()),
            ).with("arch", text(arch)).with("os", text(os)).object(),
        )
    }
}

/// A kernel and an initrd that are there are used; missing ones are downloaded from
/// the given address, for the machine's architecture as images name it, or are
/// missing where there is no such address.
pub proof fn law_missing_kernels_are_downloaded(
    k: KernelManager,
    present: bool,
    arch: &str,
    kernel: Provision,
    initrd: Provision,
)
    requires
        call_ensures(KernelManager::provide_kernel, (&k, present, arch), kernel),
        call_ensures(KernelManager::provide_initrd, (&k, present, arch), initrd),
    ensures
        present ==> kernel is Present && initrd is Present,
        !present && k.download_url is None ==> kernel is Missing && initrd is Missing,
        !present && k.download_url is Some ==> {
            let url = k.download_url->0@;
            &&& kernel is Download && initrd is Download
            &&& arch@ == "x86_64"@ ==> kernel->Download_0@ == url + "/vmlinux-"@ + "amd64"@
                && initrd->Download_0@ == url + "/initrd-"@ + "amd64"@ + ".img"@
            &&& arch@ == "aarch64"@ ==> kernel->Download_0@ == url + "/vmlinux-"@ + "arm64"@
                && initrd->Download_0@ == url + "/initrd-"@ + "arm64"@ + ".img"@
            &&& arch@ != "x86_64"@ && arch@ != "aarch64"@ ==> kernel->Download_0@ == url
                + "/vmlinux-"@ + arch@ && initrd->Download_0@ == url + "/initrd-"@ + arch@
                + ".img"@
        },
{
    reveal_strlit("x86_64");
    reveal_strlit("aarch64");
    assert("x86_64"@.len() != "aarch64"@.len());
    match kernel {
        Provision::Download(u) => {
            assert(kernel.deep_view() == ProvisionV::Download(u@));
        },
        _ => {},
    }
    match initrd {
        Provision::Download(u) => {
            assert(initrd.deep_view() == ProvisionV::Download(u@));
        },
        _ => {},
    }
}

/// The kernel is always named, the initrd exactly where both are ready; both lie in
/// the kernel directory, under different names.
pub proof fn law_initrd_needs_both(
    k: KernelManager,
    kernel_ready: bool,
    initrd_ready: bool,
    r: (String, Option<String>),
)
    requires
        call_ensures(KernelManager::ensure_available, (&k, kernel_ready, initrd_ready), r),
    ensures
        r.0@ == path_join(k.kernel_dir@, KERNEL_FILENAME@),
        r.1 is Some <==> kernel_ready && initrd_ready,
        r.1 matches Some(p) ==> p@ == path_join(k.kernel_dir@, INITRD_FILENAME@),
{
}

} // verus!
