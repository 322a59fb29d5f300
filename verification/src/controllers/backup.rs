//! Periodic backups of the cluster state.
use vstd::prelude::*;
use vstd::string::*;
use crate::api::backup::{backup_filename, backup_success, create_backup, BackupFile, BackupStatus};
#[allow(unused_imports)]
use crate::api::backup::{
    backup_file_name,
    backup_of,
    snapshot_view,
    success_status,
};
use crate::collections::{lemma_filter_map_step, order_descending};
#[allow(unused_imports)]
use crate::collections::{
    arranged,
    descending,
    int_keys,
    lemma_descending_is_complete,
    lemma_filter_map_has,
    positions,
};
use crate::text::{cat3, ends_with};
#[allow(unused_imports)]
use crate::text::has_suffix;
#[allow(unused_imports)]
use crate::time::valid_time;

verus! {

/// Periodically writes backups to a directory and keeps the newest of them.
pub struct BackupController {
    /// Where backups are written.
    pub backup_dir: String,
    /// Seconds between two backups.
    pub interval_secs: u64,
    /// How many backups are kept.
    pub retention: usize,
    /// The certificate of the cluster's authority.
    pub ca_cert_pem: String,
}

/// A backup that is ready to be written.
pub struct BackupRun {
    /// The backup.
    pub backup: BackupFile,
    /// Where it is written.
    pub path: String,
    /// What is recorded once it is.
    pub status: BackupStatus,
}

/// A file in the backup directory.
#[derive(Debug)]
pub struct BackupCopy {
    /// Its name.
    pub name: String,
    /// Its path.
    pub path: String,
    /// When it was last changed.
    pub modified: i128,
}

/// The contents of a [`BackupCopy`].
#[verifier::ext_equal]
pub struct BackupCopyV {
    pub name: Seq<char>,
    pub path: Seq<char>,
    pub modified: i128,
}

impl DeepView for BackupCopy {
    type V = BackupCopyV;

    open spec fn deep_view(&self) -> BackupCopyV {
        BackupCopyV { name: self.name@, path: self.path@, modified: self.modified }
    }
}

/// The file if its name is that of a backup.
pub open spec fn copy_rule() -> spec_fn(BackupCopyV) -> Option<(Seq<char>, i128)> {
    |f: BackupCopyV|
        if has_suffix(f.name, ".k3rs-backup.json.gz"@) {
            Some((f.path, f.modified))
        } else {
            None
        }
}

/// When some backups were last changed.
pub open spec fn ages(copies: Seq<(Seq<char>, i128)>) -> Seq<int> {
    Seq::new(copies.len(), |i: int| copies[i].1 as int)
}

/// The paths of some backups.
pub open spec fn paths(copies: Seq<(Seq<char>, i128)>) -> Seq<Seq<char>> {
    Seq::new(copies.len(), |i: int| copies[i].0)
}

/// What is left of a list without its first elements.
pub open spec fn beyond<A>(s: Seq<A>, n: int) -> Seq<A> {
    if n <= s.len() {
        s.skip(n)
    } else {
        Seq::empty()
    }
}

/// Whether a list holds the paths of all backups but the newest, newest first.
pub open spec fn outdated(files: Seq<BackupCopyV>, retention: int, r: Seq<Seq<char>>) -> bool {
    let copies = files.filter_map(copy_rule());
    exists|order: Seq<int>|
        #[trigger] descending(ages(copies), order) && r == beyond(
            arranged(paths(copies), order),
            retention,
        )
}

impl BackupController {
    /// A controller for a directory.
    pub fn new(backup_dir: &str, interval_secs: u64, retention: usize, ca_cert_pem: &str) -> (r: Self)
        ensures
            r.backup_dir@ == backup_dir@,
            r.interval_secs == interval_secs,
            r.retention == retention,
            r.ca_cert_pem@ == ca_cert_pem@,
    {
        BackupController {
            backup_dir: backup_dir.to_owned(),
            interval_secs,
            retention,
            ca_cert_pem: ca_cert_pem.to_owned(),
        }
    }

    /// Makes a backup of a snapshot of the store, says where it is written and
    /// what is recorded of it.
    pub fn run_backup(&self, snapshot: &Vec<(String, Vec<u8>)>, version: &str, now: i128) -> (r:
        BackupRun)
        requires
            valid_time(now),
        ensures
            r.backup.deep_view() == backup_of(
                snapshot_view(snapshot@),
                self.ca_cert_pem@,
                version@,
                now,
            ),
            r.path@ == self.backup_dir@ + "/"@ + backup_file_name(now),
            r.status.deep_view() == success_status(now, r.path@, r.backup.key_count),
    {
        let name: String = backup_filename(now);
        let backup: BackupFile = create_backup(snapshot, self.ca_cert_pem.as_str(), version, now);
        let path: String = cat3(self.backup_dir.as_str(), "/", name.as_str());
        let status: BackupStatus = backup_success(now, path.as_str(), backup.key_count);
        BackupRun { backup, path, status }
    }

    /// Names the backups to remove: all but the newest ones.
    pub fn rotate_backups(&self, files: &Vec<BackupCopy>) -> (r: Vec<String>)
        ensures
            outdated(files.deep_view(), self.retention as int, r.deep_view()),
    {
        let ghost all = files.deep_view();
        let mut names: Vec<String> = Vec::new();
        let mut keys: Vec<i128> = Vec::new();
        let mut i: usize = 0;
        proof {
            assert(all.take(0) =~= Seq::<BackupCopyV>::empty());
            reveal(Seq::filter_map);
            assert(names.deep_view() =~= paths(all.take(0).filter_map(copy_rule())));
            assert(int_keys(keys@) =~= ages(all.take(0).filter_map(copy_rule())));
        }
        while i < files.len()
            invariant
                i <= files@.len(),
                all == files.deep_view(),
                names.deep_view() == paths(all.take(i as int).filter_map(copy_rule())),
                int_keys(keys@) == ages(all.take(i as int).filter_map(copy_rule())),
            decreases files@.len() - i,
        {
            let ghost c = all.take(i as int).filter_map(copy_rule());
            let ghost n = names.deep_view();
            let ghost k = int_keys(keys@);
            proof {
                lemma_filter_map_step(all, copy_rule(), i as int);
                assert(all[i as int] == files@[i as int].deep_view());
            }
            let f: &BackupCopy = &files[i];
            if ends_with(f.name.as_str(), ".k3rs-backup.json.gz") {
                names.push(f.path.clone());
                keys.push(f.modified);
                proof {
                    let x = (f.path@, f.modified);
                    assert(names.deep_view() =~= n.push(f.path@));
                    assert(int_keys(keys@) =~= k.push(f.modified as int));
                    assert(paths(c.push(x)) =~= paths(c).push(f.path@));
                    assert(ages(c.push(x)) =~= ages(c).push(f.modified as int));
                }
            }
            i = i + 1;
        }
        assert(all.take(i as int) =~= all);
        let ghost copies = all.filter_map(copy_rule());
        let order: Vec<usize> = order_descending(&keys);
        let ghost o = positions(order@);
        let ghost sorted = arranged(paths(copies), o);
        let mut out: Vec<String> = Vec::new();
        let mut j: usize = self.retention;
        assert(out.deep_view() =~= Seq::<Seq<char>>::empty());
        assert(names.deep_view().len() == names@.len());
        while j < order.len()
            invariant
                self.retention <= j,
                j <= order@.len() || out@.len() == 0,
                o == positions(order@),
                names.deep_view() == paths(copies),
                names@.len() == copies.len(),
                sorted == arranged(paths(copies), o),
                descending(ages(copies), o),
                out@.len() == j - self.retention,
                forall|k: int|
                    0 <= k < out@.len() ==> (#[trigger] out@[k])@ == sorted[self.retention + k],
            decreases order@.len() - j,
        {
            assert(o[j as int] == order@[j as int]);
            assert(paths(copies)[o[j as int]] == names@[o[j as int]]@);
            out.push(names[order[j]].clone());
            j = j + 1;
        }
        assert(out.deep_view() =~= beyond(sorted, self.retention as int));
        out
    }
}

/// Rotation keeps as many backups as are to be kept, or all where there are
/// fewer, and nothing that goes is newer than anything that stays.
pub proof fn law_rotation_keeps_the_newest(
    files: Seq<BackupCopyV>,
    order: Seq<int>,
    retention: int,
    kept: int,
    gone: int,
)
    requires
        retention >= 0,
        descending(ages(files.filter_map(copy_rule())), order),
        0 <= kept < retention,
        retention <= gone < order.len(),
    ensures
        ({
            let copies = files.filter_map(copy_rule());
            &&& copies[order[kept]].1 >= copies[order[gone]].1
            &&& beyond(arranged(paths(copies), order), retention).len() == copies.len() - retention
            &&& beyond(arranged(paths(copies), order), retention)[gone - retention]
                == copies[order[gone]].0
        }),
{
    let copies = files.filter_map(copy_rule());
    let a = ages(copies);
    assert(0 <= order[kept] < a.len());
    assert(0 <= order[gone] < a.len());
    assert(a[order[kept]] >= a[order[gone]]);
}

/// How many of the files are backups.
pub open spec fn backup_count(files: Seq<BackupCopyV>) -> nat {
    files.filter(|f: BackupCopyV| has_suffix(f.name, ".k3rs-backup.json.gz"@)).len()
}

proof fn lemma_backup_count(files: Seq<BackupCopyV>)
    ensures
        files.filter_map(copy_rule()).len() == backup_count(files),
    decreases files.len(),
{
    reveal(Seq::filter);
    if files.len() == 0 {
        reveal(Seq::filter_map);
    } else {
        let n = files.len() - 1;
        lemma_filter_map_step(files, copy_rule(), n);
        assert(files.take(n + 1) =~= files);
        assert(files.take(n) =~= files.drop_last());
        lemma_backup_count(files.drop_last());
    }
}

/// Rotation removes as many backups as there are beyond those to be kept, and none
/// where there are no more than that.
pub proof fn law_rotation_keeps_the_number(
    c: BackupController,
    files: Vec<BackupCopy>,
    r: Vec<String>,
)
    requires
        call_ensures(BackupController::rotate_backups, (&c, &files), r),
    ensures
        ({
            let have = backup_count(files.deep_view());
            &&& have <= c.retention ==> r.len() == 0
            &&& have >= c.retention ==> r.len() == have - c.retention
        }),
{
    lemma_backup_count(files.deep_view());
    assert(r.deep_view().len() == r.len());
    assert(outdated(files.deep_view(), c.retention as int, r.deep_view()));
}

/// What rotation removes is a backup, by its name, and no backup that stays is
/// older than one that goes.
pub proof fn law_rotation_removes_the_oldest(
    c: BackupController,
    files: Vec<BackupCopy>,
    r: Vec<String>,
    g: int,
)
    requires
        call_ensures(BackupController::rotate_backups, (&c, &files), r),
        0 <= g < r.len(),
    ensures
        exists|i: int|
            0 <= i < files.len() && ({
                let gone = #[trigger] files.deep_view()[i];
                &&& gone.path == r[g]@
                &&& has_suffix(gone.name, ".k3rs-backup.json.gz"@)
                &&& forall|j: int|
                    0 <= j < files.len() && has_suffix(
                        (#[trigger] files.deep_view()[j]).name,
                        ".k3rs-backup.json.gz"@,
                    ) && !r.deep_view().contains(files.deep_view()[j].path)
                        ==> files.deep_view()[j].modified >= gone.modified
            }),
{
    let all = files.deep_view();
    let copies = all.filter_map(copy_rule());
    let retention = c.retention as int;
    let out = r.deep_view();
    assert(outdated(all, retention, out));
    let order = choose|order: Seq<int>|
        #[trigger] descending(ages(copies), order) && out == beyond(
            arranged(paths(copies), order),
            retention,
        );
    assert(out.len() == r.len());
    assert(out[g] == r[g]@);
    let at = g + retention;
    assert(0 <= order[at] < ages(copies).len());
    let gone = copies[order[at]];
    assert(out[g] == gone.0);
    assert(copies.contains(gone));
    all.lemma_filter_map_contains(copy_rule(), gone);
    let e = choose|e: BackupCopyV| #[trigger] all.contains(e) && copy_rule()(e) == Some(gone);
    let i = choose|i: int| 0 <= i < all.len() && all[i] == e;
    assert(all[i] == e);
    assert forall|j: int|
        0 <= j < files.len() && has_suffix(
            (#[trigger] files.deep_view()[j]).name,
            ".k3rs-backup.json.gz"@,
        ) && !r.deep_view().contains(files.deep_view()[j].path) implies all[j].modified
        >= e.modified by {
        lemma_filter_map_has(all, copy_rule(), j);
        let k = choose|k: int| 0 <= k < copies.len() && copies[k] == copy_rule()(all[j])->0;
        lemma_descending_is_complete(ages(copies), order, k);
        let m = choose|m: int| 0 <= m < order.len() && #[trigger] order[m] == k;
        if m >= retention {
            assert(out[m - retention] == all[j].path);
            assert(out.contains(out[m - retention]));
        } else {
            assert(ages(copies)[order[m]] >= ages(copies)[order[at]]);
        }
    }
}

/// A run records a success at its time for the file that it writes, which lies in
/// the backup directory and whose name rotation takes for a backup.
pub proof fn law_backup_is_recorded(
    c: BackupController,
    snapshot: Vec<(String, Vec<u8>)>,
    version: &str,
    now: i128,
    r: BackupRun,
)
    requires
        call_ensures(BackupController::run_backup, (&c, &snapshot, version, now), r),
    ensures
        r.backup.created_at == now,
        r.backup.version@ == version@,
        r.backup.ca_cert@ == c.ca_cert_pem@,
        r.status.last_backup_at == Some(now),
        r.status.deep_view().last_backup_file == Some(r.path@),
        r.status.key_count == Some(r.backup.key_count),
        r.status.status@ == "success"@,
        exists|name: Seq<char>| #[trigger]
            has_suffix(name, ".k3rs-backup.json.gz"@) && r.path@ == c.backup_dir@ + "/"@ + name,
{
    let name = backup_file_name(now);
    assert(has_suffix(name, ".k3rs-backup.json.gz"@)) by {
        let tail = ".k3rs-backup.json.gz"@;
        assert(name.subrange(name.len() - tail.len(), name.len() as int) =~= tail);
    }
}

} // verus!
