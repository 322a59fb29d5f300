//! Root file systems for Firecracker VMs: ext4 images and shared directories.
use vstd::prelude::*;
use vstd::string::*;
use crate::container::vm::{next_wait, WaitStep};
#[allow(unused_imports)]
use crate::container::vm::wait_step;
use crate::numbers::{parse_u64, u64_to_string};
#[allow(unused_imports)]
use crate::numbers::{decimal, law_decimal_is_read_back, parse_unsigned};
use crate::split::split_whitespace;
#[allow(unused_imports)]
use crate::split::words;
use crate::text::{cat, chars_of};

verus! {

/// Rootfs mode for a Firecracker VM.
#[derive(Debug)]
pub enum FcRootfsMode {
    /// ext4 block device image.
    Ext4 {
        /// Path of the image.
        image_path: String,
    },
    /// virtiofsd shared directory (no disk image).
    Virtiofsd {
        /// The directory that is shared.
        shared_dir: String,
        /// Path of the socket.
        socket_path: String,
        /// PID of the virtiofsd daemon process.
        virtiofsd_pid: Option<u32>,
    },
}

/// Strategy for rootfs creation.
#[derive(Debug, Clone, Copy, PartialEq, Eq, Structural)]
pub enum RootfsStrategy {
    /// An ext4 image.
    Ext4,
    /// A shared directory.
    Virtiofsd,
}

/// The size of an image in MiB for contents of so many bytes: 64 more than
/// they take, at least 128.
pub open spec fn image_size_mb(bytes: u64) -> int {
    let n = bytes / 1_048_576 + 64;
    if n >= 128 {
        n as int
    } else {
        128
    }
}

/// The size in the output of `du`: its first word, or zero.
pub open spec fn du_size(stdout: Seq<char>) -> nat {
    let w = words(stdout);
    if w.len() > 0 {
        match parse_unsigned(w[0], 0xffff_ffff_ffff_ffff) {
            Some(n) => n,
            None => 0,
        }
    } else {
        0
    }
}

/// The position after the last slash.
pub open spec fn name_start(path: Seq<char>) -> int
    decreases path.len(),
{
    if path.len() == 0 {
        0
    } else if path.last() == '/' {
        path.len() as int
    } else {
        name_start(path.drop_last())
    }
}

/// The position of the last dot of a file name, where one stands behind its
/// first character; else its end.
pub open spec fn stem_end(path: Seq<char>, start: int, from: int) -> int
    decreases from - start,
{
    if from <= start + 1 {
        path.len() as int
    } else if path[from - 1] == '.' {
        from - 1
    } else {
        stem_end(path, start, from - 1)
    }
}

/// The end of the last component of a path that is neither empty nor a dot.
pub open spec fn path_end(path: Seq<char>) -> int
    decreases path.len(),
{
    if path.len() > 0 && path.last() == '/' {
        path_end(path.drop_last())
    } else if path.len() > 1 && path.last() == '.' && path[path.len() - 2] == '/' {
        path_end(path.drop_last())
    } else {
        path.len() as int
    }
}

/// Whether a path ends in the name of a file.
pub open spec fn names_file(path: Seq<char>) -> bool {
    let name = path.skip(name_start(path));
    name.len() > 0 && name != "."@ && name != ".."@
}

/// The length of the extension of the file that a path names, if it has one.
pub open spec fn extension_len(path: Seq<char>) -> int {
    let p = path.take(path_end(path));
    let end = stem_end(p, name_start(p), p.len() as int);
    if names_file(p) && end < p.len() {
        p.len() - end - 1
    } else {
        0
    }
}

/// A path with `mnt` for the extension of the file that it names; the path itself
/// where it names none.
pub open spec fn with_mnt(path: Seq<char>) -> Seq<char> {
    let p = path.take(path_end(path));
    if names_file(p) {
        p.take(stem_end(p, name_start(p), p.len() as int)) + ".mnt"@
    } else {
        path
    }
}

/// Where an image is mounted: its path with the extension `mnt`. The old extension
/// goes first, so that nothing is added where only dots are left of the name.
pub open spec fn mount_point_of(img: Seq<char>) -> Seq<char> {
    with_mnt(img.take(img.len() - extension_len(img)))
}

/// Finds the end of the last component that is neither empty nor a dot.
fn find_path_end(cs: &Vec<char>) -> (r: usize)
    ensures
        r == path_end(cs@),
        r <= cs@.len(),
{
    let mut end: usize = cs.len();
    assert(cs@.take(end as int) =~= cs@);
    while end > 0 && (cs[end - 1] == '/' || (end > 1 && cs[end - 1] == '.' && cs[end - 2] == '/'))
        invariant
            end <= cs.len(),
            path_end(cs@) == path_end(cs@.take(end as int)),
        decreases end,
    {
        assert(cs@.take(end as int).drop_last() =~= cs@.take(end - 1));
        end = end - 1;
    }
    end
}

/// Whether a path, whose last name starts at the given place, ends in the name of
/// a file.
fn is_file_name(cs: &Vec<char>, start: usize) -> (r: bool)
    requires
        start == name_start(cs@),
        start <= cs.len(),
    ensures
        r == names_file(cs@),
{
    let ghost name = cs@.skip(start as int);
    proof {
        reveal_strlit(".");
        reveal_strlit("..");
    }
    let n: usize = cs.len() - start;
    if n == 0 {
        false
    } else if n == 1 && cs[start] == '.' {
        assert(name =~= "."@);
        false
    } else if n == 2 && cs[start] == '.' && cs[start + 1] == '.' {
        assert(name =~= ".."@);
        false
    } else {
        assert(n == 1 ==> name[0] != "."@[0]);
        assert(n == 2 ==> name[0] != ".."@[0] || name[1] != ".."@[1]);
        true
    }
}

/// Finds the position after the last slash.
fn find_name(cs: &Vec<char>) -> (r: usize)
    ensures
        r == name_start(cs@),
        r <= cs@.len(),
{
    let mut start: usize = cs.len();
    assert(cs@.take(start as int) =~= cs@);
    while start > 0 && cs[start - 1] != '/'
        invariant
            start <= cs.len(),
            name_start(cs@) == name_start(cs@.take(start as int)),
        decreases start,
    {
        assert(cs@.take(start as int).drop_last() =~= cs@.take(start - 1));
        start = start - 1;
    }
    start
}

/// Finds the end of a file name without its extension.
fn find_stem_end(cs: &Vec<char>, start: usize) -> (r: usize)
    requires
        start < cs.len(),
    ensures
        r == stem_end(cs@, start as int, cs@.len() as int),
        r <= cs@.len(),
{
    let mut from: usize = cs.len();
    while from - 1 > start && cs[from - 1] != '.'
        invariant
            start < from <= cs.len(),
            stem_end(cs@, start as int, cs@.len() as int) == stem_end(
                cs@,
                start as int,
                from as int,
            ),
        decreases from,
    {
        from = from - 1;
    }
    if from - 1 > start {
        from - 1
    } else {
        cs.len()
    }
}

/// The steps of making an ext4 image.
#[derive(Debug, Clone, Copy, PartialEq, Eq, Structural)]
pub enum ImageStep {
    /// Make a sparse file.
    Truncate,
    /// Format it.
    Format,
    /// Make the mount point.
    MakeMountPoint,
    /// Mount it.
    Mount,
    /// Copy the contents.
    Copy,
    /// Unmount it.
    Unmount,
    /// Remove the mount point.
    RemoveMountPoint,
    /// All is done.
    Done,
}

/// How a step went.
#[derive(Debug)]
pub enum StepResult {
    /// It is done.
    Success,
    /// It has failed, and this is what its program said.
    Failed(String),
    /// It could not be tried, and this is why.
    NotRun(String),
}

/// The contents of a [`StepResult`].
pub enum StepResultV {
    Success,
    Failed(Seq<char>),
    NotRun(Seq<char>),
}

impl DeepView for StepResult {
    type V = StepResultV;

    open spec fn deep_view(&self) -> StepResultV {
        match self {
            StepResult::Success => StepResultV::Success,
            StepResult::Failed(e) => StepResultV::Failed(e@),
            StepResult::NotRun(e) => StepResultV::NotRun(e@),
        }
    }
}

/// What follows a step.
#[derive(Debug)]
pub enum ImageNext {
    /// Another step.
    Go(ImageStep),
    /// The image cannot be made.
    Fail {
        /// What is said.
        error: String,
        /// Whether the mount point is to be removed first.
        remove_mount_point: bool,
    },
}

/// The contents of an [`ImageNext`].
pub enum ImageNextV {
    Go(ImageStep),
    Fail { error: Seq<char>, remove_mount_point: bool },
}

impl DeepView for ImageNext {
    type V = ImageNextV;

    open spec fn deep_view(&self) -> ImageNextV {
        match self {
            ImageNext::Go(s) => ImageNextV::Go(*s),
            ImageNext::Fail { error, remove_mount_point } => ImageNextV::Fail {
                error: error@,
                remove_mount_point: *remove_mount_point,
            },
        }
    }
}

/// What follows a step, given how it went: a copy that failed is not fatal,
/// and whatever was mounted is unmounted.
pub open spec fn image_next(step: ImageStep, result: StepResultV) -> ImageNextV {
    match step {
        ImageStep::Truncate => match result {
            StepResultV::Success => ImageNextV::Go(ImageStep::Format),
            StepResultV::Failed(e) => ImageNextV::Fail {
                error: "truncate failed: "@ + e,
                remove_mount_point: false,
            },
            StepResultV::NotRun(_) => ImageNextV::Fail {
                error: "truncate failed"@,
                remove_mount_point: false,
            },
        },
        ImageStep::Format => match result {
            StepResultV::Success => ImageNextV::Go(ImageStep::MakeMountPoint),
            StepResultV::Failed(e) => ImageNextV::Fail {
                error: "mkfs.ext4 failed: "@ + e,
                remove_mount_point: false,
            },
            StepResultV::NotRun(_) => ImageNextV::Fail {
                error: "mkfs.ext4 failed"@,
                remove_mount_point: false,
            },
        },
        ImageStep::MakeMountPoint => match result {
            StepResultV::Success => ImageNextV::Go(ImageStep::Mount),
            StepResultV::Failed(e) => ImageNextV::Fail { error: e, remove_mount_point: false },
            StepResultV::NotRun(e) => ImageNextV::Fail { error: e, remove_mount_point: false },
        },
        ImageStep::Mount => match result {
            StepResultV::Success => ImageNextV::Go(ImageStep::Copy),
            StepResultV::Failed(e) => ImageNextV::Fail {
                error: "mount -o loop failed (requires root): "@ + e,
                remove_mount_point: true,
            },
            StepResultV::NotRun(_) => ImageNextV::Fail {
                error: "mount -o loop failed"@,
                remove_mount_point: false,
            },
        },
        ImageStep::Copy => ImageNextV::Go(ImageStep::Unmount),
        ImageStep::Unmount => ImageNextV::Go(ImageStep::RemoveMountPoint),
        ImageStep::RemoveMountPoint => ImageNextV::Go(ImageStep::Done),
        ImageStep::Done => ImageNextV::Go(ImageStep::Done),
    }
}

/// The command line of a step: program and arguments; empty for the steps that
/// run no program.
pub open spec fn image_command(
    step: ImageStep,
    rootfs: Seq<char>,
    img: Seq<char>,
    size_mb: int,
) -> Seq<Seq<char>> {
    match step {
        ImageStep::Truncate => seq!["truncate"@, "-s"@, decimal(size_mb as nat) + "M"@, img],
        ImageStep::Format => seq!["mkfs.ext4"@, "-F"@, "-q"@, img],
        ImageStep::Mount => seq!["mount"@, "-o"@, "loop"@, img, mount_point_of(img)],
        ImageStep::Copy => seq!["cp"@, "-a"@, rootfs + "/."@, mount_point_of(img)],
        ImageStep::Unmount => seq!["umount"@, mount_point_of(img)],
        _ => Seq::empty(),
    }
}

/// Manages rootfs creation for Firecracker VMs.
pub struct FcRootfsManager;

impl FcRootfsManager {
    /// The best rootfs mode for a system that has virtiofsd or not.
    pub fn detect_mode(virtiofsd_available: bool) -> (r: RootfsStrategy)
        ensures
            r == if virtiofsd_available {
                RootfsStrategy::Virtiofsd
            } else {
                RootfsStrategy::Ext4
            },
    {
        if virtiofsd_available {
            RootfsStrategy::Virtiofsd
        } else {
            RootfsStrategy::Ext4
        }
    }

    /// The size of an image for contents of so many bytes.
    pub fn image_size(dir_size: u64) -> (r: u64)
        ensures
            r == image_size_mb(dir_size),
    {
        let n: u64 = dir_size / 1_048_576 + 64;
        if n >= 128 {
            n
        } else {
            128
        }
    }

    /// Reads the size of a directory tree from the output of `du`.
    pub fn dir_size(stdout: &str) -> (r: u64)
        ensures
            r == du_size(stdout@),
    {
        let w: Vec<String> = split_whitespace(stdout);
        assert(w.deep_view().len() == w@.len());
        if w.len() > 0 {
            assert(w.deep_view()[0] == w@[0]@);
            match parse_u64(w[0].as_str(), 0xffff_ffff_ffff_ffff) {
                Some(n) => n,
                None => 0,
            }
        } else {
            0
        }
    }

    /// Where an image is mounted.
    pub fn mount_point(img_path: &str) -> (r: String)
        ensures
            r@ == mount_point_of(img_path@),
    {
        let n: usize = Self::extension(img_path);
        let len: usize = img_path.unicode_len();
        let rest: &str = img_path.substring_char(0, len - n);
        assert(img_path@.subrange(0, len - n) =~= img_path@.take(len - n));
        let mut cs: Vec<char> = chars_of(rest);
        let last: usize = find_path_end(&cs);
        cs.truncate(last);
        let ghost p = rest@.take(last as int);
        assert(cs@ =~= p);
        let start: usize = find_name(&cs);
        if is_file_name(&cs, start) {
            let end: usize = find_stem_end(&cs, start);
            assert(rest@.subrange(0, end as int) =~= p.take(end as int));
            cat(rest.substring_char(0, end), ".mnt")
        } else {
            rest.to_owned()
        }
    }

    /// The length of the extension of the file that a path names.
    fn extension(path: &str) -> (r: usize)
        ensures
            r == extension_len(path@),
            r <= path@.len(),
    {
        let mut cs: Vec<char> = chars_of(path);
        let last: usize = find_path_end(&cs);
        cs.truncate(last);
        assert(cs@ =~= path@.take(last as int));
        let start: usize = find_name(&cs);
        if is_file_name(&cs, start) {
            let end: usize = find_stem_end(&cs, start);
            if end < cs.len() {
                return cs.len() - end - 1;
            }
        }
        0
    }

    /// The command line of a step.
    pub fn step_command(step: ImageStep, rootfs_dir: &str, img_path: &str, size_mb: u64) -> (r: Vec<
        String,
    >)
        ensures
            r.deep_view() == image_command(step, rootfs_dir@, img_path@, size_mb as int),
    {
        let mnt: String = Self::mount_point(img_path);
        let mut out: Vec<String> = Vec::new();
        match step {
            ImageStep::Truncate => {
                out.push("truncate".to_owned());
                out.push("-s".to_owned());
                out.push(cat(u64_to_string(size_mb).as_str(), "M"));
                out.push(img_path.to_owned());
            },
            ImageStep::Format => {
                out.push("mkfs.ext4".to_owned());
                out.push("-F".to_owned());
                out.push("-q".to_owned());
                out.push(img_path.to_owned());
            },
            ImageStep::Mount => {
                out.push("mount".to_owned());
                out.push("-o".to_owned());
                out.push("loop".to_owned());
                out.push(img_path.to_owned());
                out.push(mnt);
            },
            ImageStep::Copy => {
                out.push("cp".to_owned());
                out.push("-a".to_owned());
                out.push(cat(rootfs_dir, "/."));
                out.push(mnt);
            },
            ImageStep::Unmount => {
                out.push("umount".to_owned());
                out.push(mnt);
            },
            _ => {},
        }
        assert(out.deep_view() =~= image_command(step, rootfs_dir@, img_path@, size_mb as int));
        out
    }

    /// Decides what follows a step.
    pub fn next_step(step: ImageStep, result: &StepResult) -> (r: ImageNext)
        ensures
            r.deep_view() == image_next(step, result.deep_view()),
    {
        match step {
            ImageStep::Truncate => match result {
                StepResult::Success => ImageNext::Go(ImageStep::Format),
                StepResult::Failed(e) => ImageNext::Fail {
                    error: cat("truncate failed: ", e.as_str()),
                    remove_mount_point: false,
                },
                StepResult::NotRun(_) => ImageNext::Fail {
                    error: "truncate failed".to_owned(),
                    remove_mount_point: false,
                },
            },
            ImageStep::Format => match result {
                StepResult::Success => ImageNext::Go(ImageStep::MakeMountPoint),
                StepResult::Failed(e) => ImageNext::Fail {
                    error: cat("mkfs.ext4 failed: ", e.as_str()),
                    remove_mount_point: false,
                },
                StepResult::NotRun(_) => ImageNext::Fail {
                    error: "mkfs.ext4 failed".to_owned(),
                    remove_mount_point: false,
                },
            },
            ImageStep::MakeMountPoint => match result {
                StepResult::Success => ImageNext::Go(ImageStep::Mount),
                StepResult::Failed(e) => ImageNext::Fail {
                    error: e.clone(),
                    remove_mount_point: false,
                },
                StepResult::NotRun(e) => ImageNext::Fail {
                    error: e.clone(),
                    remove_mount_point: false,
                },
            },
            ImageStep::Mount => match result {
                StepResult::Success => ImageNext::Go(ImageStep::Copy),
                StepResult::Failed(e) => ImageNext::Fail {
                    error: cat("mount -o loop failed (requires root): ", e.as_str()),
                    remove_mount_point: true,
                },
                StepResult::NotRun(_) => ImageNext::Fail {
                    error: "mount -o loop failed".to_owned(),
                    remove_mount_point: false,
                },
            },
            ImageStep::Copy => ImageNext::Go(ImageStep::Unmount),
            ImageStep::Unmount => ImageNext::Go(ImageStep::RemoveMountPoint),
            ImageStep::RemoveMountPoint => ImageNext::Go(ImageStep::Done),
            ImageStep::Done => ImageNext::Go(ImageStep::Done),
        }
    }

    /// Decides, after so many waits, what follows from whether the socket of
    /// virtiofsd is there: it is waited for 50 times for 50 ms.
    pub fn virtiofsd_wait(waited: u32, present: bool) -> (r: WaitStep)
        ensures
            r == wait_step(waited, 50, 50, present),
    {
        next_wait(waited, 50, 50, present)
    }

    /// What is said where the socket of virtiofsd did not appear.
    pub fn virtiofsd_missing(socket_path: &str) -> (r: String)
        ensures
            r@ == "virtiofsd socket did not appear at "@ + socket_path@,
    {
        cat("virtiofsd socket did not appear at ", socket_path)
    }

    /// The arguments of virtiofsd for a shared directory.
    pub fn virtiofsd_args(rootfs_dir: &str, socket_path: &str) -> (r: Vec<String>)
        ensures
            r.deep_view() == seq![
                "--socket-path"@,
                socket_path@,
                "--shared-dir"@,
                rootfs_dir@,
                "--cache"@,
                "auto"@,
            ],
    {
        let mut out: Vec<String> = Vec::new();
        out.push("--socket-path".to_owned());
        out.push(socket_path.to_owned());
        out.push("--shared-dir".to_owned());
        out.push(rootfs_dir.to_owned());
        out.push("--cache".to_owned());
        out.push("auto".to_owned());
        assert(out.deep_view() =~= seq![
            "--socket-path"@,
            socket_path@,
            "--shared-dir"@,
            rootfs_dir@,
            "--cache"@,
            "auto"@,
        ]);
        out
    }
}

/// How many steps are left until all is done.
pub open spec fn steps_left(step: ImageStep) -> nat {
    match step {
        ImageStep::Truncate => 7,
        ImageStep::Format => 6,
        ImageStep::MakeMountPoint => 5,
        ImageStep::Mount => 4,
        ImageStep::Copy => 3,
        ImageStep::Unmount => 2,
        ImageStep::RemoveMountPoint => 1,
        ImageStep::Done => 0,
    }
}

/// What was mounted is unmounted whatever happens to the copy, no failure
/// leaves anything mounted, and every step leads closer to the end.
pub proof fn law_image_steps(step: ImageStep, result: StepResultV)
    ensures
        step == ImageStep::Copy ==> image_next(step, result) == ImageNextV::Go(ImageStep::Unmount),
        image_next(step, result) is Fail ==> step != ImageStep::Copy && step != ImageStep::Unmount,
        step != ImageStep::Done ==> match image_next(step, result) {
            ImageNextV::Go(n) => steps_left(n) < steps_left(step),
            _ => true,
        },
{
}

/// An image has room for what it is to hold and 64 megabytes more, and at least 128
/// megabytes.
pub proof fn law_image_has_room(dir_size: u64, r: u64)
    requires
        call_ensures(FcRootfsManager::image_size, (dir_size,), r),
    ensures
        r >= 128,
        r * 1_048_576 > dir_size + 63 * 1_048_576,
        r > 128 ==> r == dir_size / 1_048_576 + 64,
{
}

/// The file system of a machine is shared where that can be had, else an image.
pub proof fn law_sharing_is_preferred(available: bool, r: RootfsStrategy)
    requires
        call_ensures(FcRootfsManager::detect_mode, (available,), r),
    ensures
        available ==> r == RootfsStrategy::Virtiofsd,
        !available ==> r == RootfsStrategy::Ext4,
{
}

/// An image is made step by step: cut to size, formatted, mounted, filled,
/// unmounted. A step up to the mount that fails ends the work; once the image is
/// mounted it is always unmounted, however the copy went.
pub proof fn law_image_is_made_in_order(step: ImageStep, result: StepResult, r: ImageNext)
    requires
        call_ensures(FcRootfsManager::next_step, (step, &result), r),
    ensures
        result is Success ==> {
            &&& step == ImageStep::Truncate ==> r == ImageNext::Go(ImageStep::Format)
            &&& step == ImageStep::Format ==> r == ImageNext::Go(ImageStep::MakeMountPoint)
            &&& step == ImageStep::MakeMountPoint ==> r == ImageNext::Go(ImageStep::Mount)
            &&& step == ImageStep::Mount ==> r == ImageNext::Go(ImageStep::Copy)
        },
        !(result is Success) && (step == ImageStep::Truncate || step == ImageStep::Format || step
            == ImageStep::MakeMountPoint || step == ImageStep::Mount) ==> r is Fail,
        step == ImageStep::Copy ==> r == ImageNext::Go(ImageStep::Unmount),
        step == ImageStep::Unmount ==> r == ImageNext::Go(ImageStep::RemoveMountPoint),
        step == ImageStep::RemoveMountPoint || step == ImageStep::Done ==> r == ImageNext::Go(
            ImageStep::Done,
        ),
        r is Fail && r->remove_mount_point ==> step == ImageStep::Mount,
        step == ImageStep::Mount && result is Failed ==> r is Fail && r->remove_mount_point,
{
    match r {
        ImageNext::Go(s) => {
            assert(r.deep_view() == ImageNextV::Go(s));
        },
        ImageNext::Fail { error, remove_mount_point } => {
            assert(r.deep_view() == ImageNextV::Fail { error: error@, remove_mount_point });
        },
    }
}

/// The steps act on the image and its mount point: what is mounted there is filled
/// and unmounted there.
pub proof fn law_image_commands(
    rootfs_dir: &str,
    img: &str,
    size_mb: u64,
    at: String,
    truncate: Vec<String>,
    format: Vec<String>,
    mount: Vec<String>,
    copy: Vec<String>,
    unmount: Vec<String>,
)
    requires
        call_ensures(FcRootfsManager::mount_point, (img,), at),
        call_ensures(
            FcRootfsManager::step_command,
            (ImageStep::Truncate, rootfs_dir, img, size_mb),
            truncate,
        ),
        call_ensures(
            FcRootfsManager::step_command,
            (ImageStep::Format, rootfs_dir, img, size_mb),
            format,
        ),
        call_ensures(
            FcRootfsManager::step_command,
            (ImageStep::Mount, rootfs_dir, img, size_mb),
            mount,
        ),
        call_ensures(
            FcRootfsManager::step_command,
            (ImageStep::Copy, rootfs_dir, img, size_mb),
            copy,
        ),
        call_ensures(
            FcRootfsManager::step_command,
            (ImageStep::Unmount, rootfs_dir, img, size_mb),
            unmount,
        ),
    ensures
        truncate.deep_view() == seq!["truncate"@, "-s"@, decimal(size_mb as nat) + "M"@, img@],
        format.deep_view() == seq!["mkfs.ext4"@, "-F"@, "-q"@, img@],
        mount.deep_view() == seq!["mount"@, "-o"@, "loop"@, img@, at@],
        copy.deep_view() == seq!["cp"@, "-a"@, rootfs_dir@ + "/."@, at@],
        unmount.deep_view() == seq!["umount"@, at@],
{
}

/// The size of a directory is the first word that was said of it, where that is a
/// number, and nothing otherwise.
pub proof fn law_directory_size_is_read(stdout: &str, n: u64, r: u64)
    requires
        call_ensures(FcRootfsManager::dir_size, (stdout,), r),
    ensures
        words(stdout@).len() > 0 && words(stdout@)[0] == decimal(n as nat) ==> r == n,
        words(stdout@).len() == 0 ==> r == 0,
{
    law_decimal_is_read_back(n as nat, 0xffff_ffff_ffff_ffff);
}

proof fn lemma_name_start(dir: Seq<char>, name: Seq<char>)
    requires
        dir.len() == 0 || dir.last() == '/',
        forall|i: int| 0 <= i < name.len() ==> #[trigger] name[i] != '/',
    ensures
        name_start(dir + name) == dir.len(),
    decreases name.len(),
{
    let p = dir + name;
    if name.len() == 0 {
        assert(p =~= dir);
    } else {
        assert(p.last() == name.last());
        assert(name[name.len() - 1] != '/');
        assert(p.drop_last() =~= dir + name.drop_last());
        lemma_name_start(dir, name.drop_last());
    }
}

proof fn lemma_stem_end(p: Seq<char>, start: int, e: int, from: int)
    requires
        0 <= start < e < from <= p.len(),
        p[e] == '.',
        forall|i: int| e < i < from ==> #[trigger] p[i] != '.',
    ensures
        stem_end(p, start, from) == e,
    decreases from,
{
    if from - 1 > e {
        assert(p[from - 1] != '.');
        lemma_stem_end(p, start, e, from - 1);
    }
}

/// An image is mounted beside itself: under its own name, with the extension `mnt` in
/// place of its own.
pub proof fn law_mount_point_is_beside_the_image(
    dir: Seq<char>,
    stem: Seq<char>,
    ext: Seq<char>,
    path: &str,
    r: String,
)
    requires
        call_ensures(FcRootfsManager::mount_point, (path,), r),
        path@ == dir + stem + seq!['.'] + ext,
        dir.len() == 0 || dir.last() == '/',
        stem.len() > 0,
        ext.len() > 0,
        forall|i: int| 0 <= i < stem.len() ==> #[trigger] stem[i] != '/' && stem[i] != '.',
        forall|i: int| 0 <= i < ext.len() ==> #[trigger] ext[i] != '/' && ext[i] != '.',
    ensures
        r@ == dir + stem + ".mnt"@,
{
    let name = stem + seq!['.'] + ext;
    let img = dir + stem + seq!['.'] + ext;
    let e = (dir.len() + stem.len()) as int;
    assert(img =~= dir + name);
    assert forall|i: int| 0 <= i < name.len() implies #[trigger] name[i] != '/' by {
        if i < stem.len() {
            assert(name[i] == stem[i]);
        } else if i > stem.len() {
            assert(name[i] == ext[i - stem.len() - 1]);
        }
    }
    lemma_name_start(dir, name);
    assert(ext[ext.len() - 1] != '/' && ext[ext.len() - 1] != '.');
    assert(img.last() == ext.last());
    assert(path_end(img) == img.len());
    assert(img.take(img.len() as int) =~= img);
    assert(img[e] == '.');
    assert forall|i: int| e < i < img.len() implies #[trigger] img[i] != '.' by {
        assert(img[i] == ext[i - e - 1]);
    }
    lemma_stem_end(img, dir.len() as int, e, img.len() as int);
    assert(img.skip(dir.len() as int) =~= name);
    reveal_strlit(".");
    reveal_strlit("..");
    assert(name[0] == stem[0]);
    assert("."@[0] == '.' && ".."@[0] == '.');
    assert(extension_len(img) == ext.len());
    let cut = img.take(img.len() - ext.len());
    let short = stem + seq!['.'];
    assert(cut =~= dir + short);
    assert forall|i: int| 0 <= i < short.len() implies #[trigger] short[i] != '/' by {
        if i < stem.len() {
            assert(short[i] == stem[i]);
        }
    }
    lemma_name_start(dir, short);
    assert(stem[stem.len() - 1] != '/');
    assert(cut.last() == '.');
    assert(cut[cut.len() - 2] == stem[stem.len() - 1]);
    assert(path_end(cut) == cut.len());
    assert(cut.take(cut.len() as int) =~= cut);
    lemma_stem_end(cut, dir.len() as int, e, cut.len() as int);
    assert(cut.skip(dir.len() as int) =~= short);
    assert(short[0] == stem[0]);
    assert(cut.take(e) =~= dir + stem);
}

} // verus!
