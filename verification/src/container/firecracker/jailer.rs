//! The Firecracker jailer: its directories and command line.
use vstd::prelude::*;
use vstd::string::*;
use crate::container::backend::file_name;
#[allow(unused_imports)]
use crate::container::backend::file_name_of;
use crate::keys::join_path;
#[allow(unused_imports)]
use crate::keys::path_join;
use crate::numbers::u64_to_string;
#[allow(unused_imports)]
use crate::numbers::decimal;

verus! {

/// Wraps Firecracker with the jailer for enhanced isolation.
pub struct Jailer {
    /// Path of the jailer binary.
    pub jailer_bin: String,
    /// Directory under which the jails are.
    pub chroot_base: String,
}

/// The directory of a jail, below the base.
pub open spec fn jail_dir(base: Seq<char>, id: Seq<char>) -> Seq<char> {
    path_join(path_join(base, "firecracker"@), id)
}

/// The root of a jail.
pub open spec fn jail_root(base: Seq<char>, id: Seq<char>) -> Seq<char> {
    path_join(jail_dir(base, id), "root"@)
}

/// The user and group that the jailed process runs as: nobody instead of root.
pub open spec fn jailed_ids(uid: u32, gid: u32) -> (u32, u32) {
    if uid == 0 {
        (65534, 65534)
    } else {
        (uid, gid)
    }
}

impl Jailer {
    /// A jailer with the standard base directory.
    pub fn new(jailer_bin: &str) -> (r: Self)
        ensures
            r.jailer_bin@ == jailer_bin@,
            r.chroot_base@ == "/tmp/k3rs-jailer"@,
    {
        Jailer { jailer_bin: jailer_bin.to_owned(), chroot_base: "/tmp/k3rs-jailer".to_owned() }
    }

    /// The chroot directory for a jailed VM.
    pub fn chroot_dir(&self, id: &str) -> (r: String)
        ensures
            r@ == jail_root(self.chroot_base@, id@),
    {
        join_path(self.cleanup_dir(id).as_str(), "root")
    }

    /// The directory to remove after a jailed VM was deleted.
    pub fn cleanup_dir(&self, id: &str) -> (r: String)
        ensures
            r@ == jail_dir(self.chroot_base@, id@),
    {
        join_path(join_path(self.chroot_base.as_str(), "firecracker").as_str(), id)
    }

    /// The API socket path inside the jailer chroot.
    pub fn api_socket_in_chroot(&self, id: &str, socket_name: &str) -> (r: String)
        ensures
            r@ == path_join(jail_root(self.chroot_base@, id@), socket_name@),
    {
        join_path(self.chroot_dir(id).as_str(), socket_name)
    }

    /// Where the kernel and the root file system go in a jail.
    pub fn prepare_chroot(&self, id: &str, rootfs_path: &str) -> (r: (String, String))
        ensures
            r.0@ == path_join(jail_root(self.chroot_base@, id@), "vmlinux"@),
            r.1@ == path_join(
                jail_root(self.chroot_base@, id@),
                match file_name_of(rootfs_path@) {
                    Some(n) => n,
                    None => Seq::empty(),
                },
            ),
    {
        let root: String = self.chroot_dir(id);
        let name: String = match file_name(rootfs_path) {
            Some(n) => n,
            None => {
                let e: String = String::new();
                assert(e@ =~= Seq::<char>::empty());
                e
            },
        };
        (join_path(root.as_str(), "vmlinux"), join_path(root.as_str(), name.as_str()))
    }

    /// The arguments of the jailer that wrap Firecracker, for a caller with
    /// the given user and group.
    pub fn wrap_command(
        &self,
        id: &str,
        firecracker_bin: &str,
        api_socket_name: &str,
        uid: u32,
        gid: u32,
    ) -> (r: Vec<String>)
        ensures
            r.deep_view() == seq![
                "--id"@,
                id@,
                "--exec-file"@,
                firecracker_bin@,
                "--uid"@,
                decimal(jailed_ids(uid, gid).0 as nat),
                "--gid"@,
                decimal(jailed_ids(uid, gid).1 as nat),
                "--chroot-base-dir"@,
                self.chroot_base@,
                "--daemonize"@,
                "--"@,
                "--api-sock"@,
                api_socket_name@,
            ],
    {
        let (exec_uid, exec_gid): (u32, u32) = if uid == 0 {
            (65534, 65534)
        } else {
            (uid, gid)
        };
        let mut out: Vec<String> = Vec::new();
        out.push("--id".to_owned());
        out.push(id.to_owned());
        out.push("--exec-file".to_owned());
        out.push(firecracker_bin.to_owned());
        out.push("--uid".to_owned());
        out.push(u64_to_string(exec_uid as u64));
        out.push("--gid".to_owned());
        out.push(u64_to_string(exec_gid as u64));
        out.push("--chroot-base-dir".to_owned());
        out.push(self.chroot_base.clone());
        out.push("--daemonize".to_owned());
        out.push("--".to_owned());
        out.push("--api-sock".to_owned());
        out.push(api_socket_name.to_owned());
        assert(out.deep_view() =~= seq![
            "--id"@,
            id@,
            "--exec-file"@,
            firecracker_bin@,
            "--uid"@,
            decimal(jailed_ids(uid, gid).0 as nat),
            "--gid"@,
            decimal(jailed_ids(uid, gid).1 as nat),
            "--chroot-base-dir"@,
            self.chroot_base@,
            "--daemonize"@,
            "--"@,
            "--api-sock"@,
            api_socket_name@,
        ]);
        out
    }
}

/// A jailed process never runs as root.
pub proof fn law_jail_drops_root(uid: u32, gid: u32)
    ensures
        jailed_ids(uid, gid).0 != 0,
{
}

/// A jailed machine never runs as root: where the caller is root it runs as nobody,
/// else as the caller. It is confined below the jail's base, where its root and its
/// socket are looked for.
pub proof fn law_jail_confines(
    j: Jailer,
    id: &str,
    firecracker_bin: &str,
    socket: &str,
    uid: u32,
    gid: u32,
    r: Vec<String>,
    root: String,
    sock: String,
    dir: String,
)
    requires
        call_ensures(Jailer::wrap_command, (&j, id, firecracker_bin, socket, uid, gid), r),
        call_ensures(Jailer::chroot_dir, (&j, id), root),
        call_ensures(Jailer::api_socket_in_chroot, (&j, id, socket), sock),
        call_ensures(Jailer::cleanup_dir, (&j, id), dir),
    ensures
        r.deep_view().len() == 14,
        r.deep_view()[0] == "--id"@ && r.deep_view()[1] == id@,
        r.deep_view()[2] == "--exec-file"@ && r.deep_view()[3] == firecracker_bin@,
        r.deep_view()[4] == "--uid"@ && r.deep_view()[6] == "--gid"@,
        uid == 0 ==> r.deep_view()[5] == decimal(65534) && r.deep_view()[7] == decimal(65534),
        uid != 0 ==> r.deep_view()[5] == decimal(uid as nat) && r.deep_view()[7] == decimal(
            gid as nat,
        ),
        r.deep_view()[8] == "--chroot-base-dir"@ && r.deep_view()[9] == j.chroot_base@,
        r.deep_view()[12] == "--api-sock"@ && r.deep_view()[13] == socket@,
        dir@ == path_join(path_join(j.chroot_base@, "firecracker"@), id@),
        root@ == path_join(dir@, "root"@),
        sock@ == path_join(root@, socket@),
{
}

} // verus!
