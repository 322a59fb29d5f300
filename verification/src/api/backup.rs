//! Backups of the cluster state and how they are restored.
use vstd::prelude::*;
use vstd::string::*;
use crate::api::reply::{json_reply, text_reply, Reply};
#[allow(unused_imports)]
use crate::api::reply::{json_answer, one_text, ReplyV};
use crate::collections::lemma_filter_map_step;
#[allow(unused_imports)]
use crate::collections::lemma_filter_map_has;
use crate::gzip::{gunzip, gzip};
#[allow(unused_imports)]
use crate::gzip::{gzipped, inflated, inflates_to, yields};
use crate::json::{read_value, text, write_value, Fields, Json};
#[allow(unused_imports)]
use crate::json::{compact_text, is_plain, json_in, value_of, JsonV};
use crate::numbers::i64_to_string;
#[allow(unused_imports)]
use crate::numbers::signed_decimal;
use crate::text::{cat, cat3, cat5, contains, starts_with, str_eq};
#[allow(unused_imports)]
use crate::text::{has_infix, has_prefix, occurs_at};
use crate::time::{dashed_stamp, time_in_json};
#[allow(unused_imports)]
use crate::time::{json_time, stamp_text, valid_time};
#[allow(unused_imports)]
use vstd::utf8::encode_utf8;
#[allow(unused_imports)]
use crate::json::{lemma_plain_key, plain_key};

verus! {

broadcast use crate::json::group_plain;

/// The keys of the objects that are written here are plain.
proof fn lemma_keys()
    ensures
        plain_key("backup_created_at"@),
        plain_key("backup_version"@),
        plain_key("cluster_name"@),
        plain_key("dry_run"@),
        plain_key("error"@),
        plain_key("imported"@),
        plain_key("status"@),
        plain_key("would_restore"@),
{
    reveal_strlit("backup_created_at");
    reveal_strlit("backup_version");
    reveal_strlit("cluster_name");
    reveal_strlit("dry_run");
    reveal_strlit("error");
    reveal_strlit("imported");
    reveal_strlit("status");
    reveal_strlit("would_restore");
    lemma_plain_key("backup_created_at"@);
    lemma_plain_key("backup_version"@);
    lemma_plain_key("cluster_name"@);
    lemma_plain_key("dry_run"@);
    lemma_plain_key("error"@);
    lemma_plain_key("imported"@);
    lemma_plain_key("status"@);
    lemma_plain_key("would_restore"@);
}

// ---------------------------------------------------------------------------
// Backup files
// ---------------------------------------------------------------------------

/// A key of the store with its value.
pub struct BackupEntry {
    /// The key.
    pub key: String,
    /// The value.
    pub value: serde_json::Value,
}

/// The contents of a [`BackupEntry`].
#[verifier::ext_equal]
pub struct BackupEntryV {
    pub key: Seq<char>,
    pub value: JsonV,
}

impl DeepView for BackupEntry {
    type V = BackupEntryV;

    open spec fn deep_view(&self) -> BackupEntryV {
        BackupEntryV { key: self.key@, value: value_of(self.value) }
    }
}

/// A backup of the cluster state.
pub struct BackupFile {
    /// Version of the format.
    pub version: String,
    /// When it was made.
    pub created_at: i128,
    /// The cluster it is of.
    pub cluster_name: String,
    /// How many nodes the cluster had.
    pub node_count: usize,
    /// How many entries there are.
    pub key_count: usize,
    /// The entries.
    pub entries: Vec<BackupEntry>,
    /// The certificate of the cluster's authority.
    pub ca_cert: String,
}

/// The contents of a [`BackupFile`].
#[verifier::ext_equal]
pub struct BackupFileV {
    pub version: Seq<char>,
    pub created_at: i128,
    pub cluster_name: Seq<char>,
    pub node_count: usize,
    pub key_count: usize,
    pub entries: Seq<BackupEntryV>,
    pub ca_cert: Seq<char>,
}

impl DeepView for BackupFile {
    type V = BackupFileV;

    open spec fn deep_view(&self) -> BackupFileV {
        BackupFileV {
            version: self.version@,
            created_at: self.created_at,
            cluster_name: self.cluster_name@,
            node_count: self.node_count,
            key_count: self.key_count,
            entries: self.entries.deep_view(),
            ca_cert: self.ca_cert@,
        }
    }
}

/// What is known of the last backup.
#[derive(Debug)]
pub struct BackupStatus {
    /// When it was made.
    pub last_backup_at: Option<i128>,
    /// Where it is.
    pub last_backup_file: Option<String>,
    /// How many entries it has.
    pub key_count: Option<usize>,
    /// How it went.
    pub status: String,
}

/// The contents of a [`BackupStatus`].
#[verifier::ext_equal]
pub struct BackupStatusV {
    pub last_backup_at: Option<i128>,
    pub last_backup_file: Option<Seq<char>>,
    pub key_count: Option<usize>,
    pub status: Seq<char>,
}

impl DeepView for BackupStatus {
    type V = BackupStatusV;

    open spec fn deep_view(&self) -> BackupStatusV {
        BackupStatusV {
            last_backup_at: self.last_backup_at,
            last_backup_file: self.last_backup_file.deep_view(),
            key_count: self.key_count,
            status: self.status@,
        }
    }
}

/// A status that says nothing of a backup.
pub open spec fn bare_status(status: Seq<char>) -> BackupStatusV {
    BackupStatusV { last_backup_at: None, last_backup_file: None, key_count: None, status }
}

/// The status after a backup.
pub open spec fn success_status(at: i128, file: Seq<char>, key_count: usize) -> BackupStatusV {
    BackupStatusV {
        last_backup_at: Some(at),
        last_backup_file: Some(file),
        key_count: Some(key_count),
        status: "success"@,
    }
}

/// An entry of the store, where its value is JSON.
pub open spec fn entry_rule() -> spec_fn((Seq<char>, Seq<u8>)) -> Option<BackupEntryV> {
    |e: (Seq<char>, Seq<u8>)|
        match json_in(e.1) {
            Some(v) => Some(BackupEntryV { key: e.0, value: v }),
            None => None,
        }
}

/// The key, where it is that of a node.
pub open spec fn node_rule() -> spec_fn((Seq<char>, Seq<u8>)) -> Option<Seq<char>> {
    |e: (Seq<char>, Seq<u8>)|
        if has_prefix(e.0, "/registry/nodes/"@) {
            Some(e.0)
        } else {
            None
        }
}

/// The contents of a snapshot of the store.
pub open spec fn snapshot_view(s: Seq<(String, Vec<u8>)>) -> Seq<(Seq<char>, Seq<u8>)> {
    Seq::new(s.len(), |i: int| (s[i].0@, s[i].1@))
}

/// The backup of a snapshot.
pub open spec fn backup_of(
    snapshot: Seq<(Seq<char>, Seq<u8>)>,
    ca_cert: Seq<char>,
    version: Seq<char>,
    now: i128,
) -> BackupFileV {
    BackupFileV {
        version,
        created_at: now,
        cluster_name: "k3rs"@,
        node_count: snapshot.filter_map(node_rule()).len() as usize,
        key_count: snapshot.filter_map(entry_rule()).len() as usize,
        entries: snapshot.filter_map(entry_rule()),
        ca_cert,
    }
}

/// Makes a backup of a snapshot of the store. Values that are not JSON are left
/// out.
pub fn create_backup(
    snapshot: &Vec<(String, Vec<u8>)>,
    ca_cert: &str,
    version: &str,
    now: i128,
) -> (r: BackupFile)
    ensures
        r.deep_view() == backup_of(snapshot_view(snapshot@), ca_cert@, version@, now),
{
    let ghost all = snapshot_view(snapshot@);
    let mut entries: Vec<BackupEntry> = Vec::new();
    let mut node_count: usize = 0;
    let mut i: usize = 0;
    proof {
        assert(all.take(0) =~= Seq::<(Seq<char>, Seq<u8>)>::empty());
        reveal(Seq::filter_map);
        assert(entries.deep_view() =~= all.take(0).filter_map(entry_rule()));
    }
    while i < snapshot.len()
        invariant
            i <= snapshot.len(),
            all == snapshot_view(snapshot@),
            node_count <= i,
            node_count == all.take(i as int).filter_map(node_rule()).len(),
            entries.deep_view() == all.take(i as int).filter_map(entry_rule()),
        decreases snapshot.len() - i,
    {
        let ghost before = entries.deep_view();
        proof {
            lemma_filter_map_step(all, entry_rule(), i as int);
            lemma_filter_map_step(all, node_rule(), i as int);
        }
        if starts_with(snapshot[i].0.as_str(), "/registry/nodes/") {
            node_count = node_count + 1;
        }
        if let Some(v) = read_value(snapshot[i].1.as_slice()) {
            let ghost x = BackupEntryV { key: snapshot@[i as int].0@, value: value_of(v) };
            entries.push(BackupEntry { key: snapshot[i].0.clone(), value: v });
            assert(entries.deep_view() =~= before.push(x));
        }
        i = i + 1;
    }
    assert(all.take(i as int) =~= all);
    let key_count: usize = entries.len();
    assert(entries.deep_view().len() == entries@.len());
    BackupFile {
        version: version.to_owned(),
        created_at: now,
        cluster_name: "k3rs".to_owned(),
        node_count,
        key_count,
        entries,
        ca_cert: ca_cert.to_owned(),
    }
}

/// Compresses the text of a backup. What is compressed can be read again.
pub fn compress_backup(json: &Vec<u8>) -> (r: Result<Vec<u8>, String>)
    ensures
        yields(r, gzipped(json@)),
        r is Ok ==> inflates_to(r->Ok_0@, json@),
{
    gzip(json.as_slice())
}

/// Decompresses an uploaded backup.
pub fn decompress_backup(data: &Vec<u8>) -> (r: Result<Vec<u8>, String>)
    ensures
        yields(r, inflated(data@)),
{
    gunzip(data.as_slice())
}

/// What is wrong with a backup, if anything.
pub open spec fn backup_fault(b: BackupFileV, expected: Seq<char>) -> Option<Seq<char>> {
    if b.version != expected {
        Some(
            "Unsupported backup version '"@ + b.version + "' (expected '"@ + expected + "')"@,
        )
    } else if b.entries.len() == 0 {
        Some("Backup contains no entries"@)
    } else {
        None
    }
}

/// Validates a backup: it has the expected version and at least one entry.
pub fn validate_backup(backup: &BackupFile, expected: &str) -> (r: Result<(), String>)
    ensures
        match r {
            Ok(_) => backup_fault(backup.deep_view(), expected@) is None,
            Err(e) => backup_fault(backup.deep_view(), expected@) == Some(e@),
        },
{
    assert(backup.entries.deep_view().len() == backup.entries@.len());
    if !str_eq(backup.version.as_str(), expected) {
        Err(
            cat5(
                "Unsupported backup version '",
                backup.version.as_str(),
                "' (expected '",
                expected,
                "')",
            ),
        )
    } else if backup.entries.len() == 0 {
        Err("Backup contains no entries".to_owned())
    } else {
        Ok(())
    }
}

/// The name of a backup file, by the time it was made.
pub open spec fn backup_file_name(now: i128) -> Seq<char> {
    "backup-"@ + stamp_text(now, "%Y%m%d-%H%M%S"@) + ".k3rs-backup.json.gz"@
}

/// Names a backup file.
pub fn backup_filename(now: i128) -> (r: String)
    requires
        valid_time(now),
    ensures
        r@ == backup_file_name(now),
{
    cat3("backup-", dashed_stamp(now).as_str(), ".k3rs-backup.json.gz")
}

/// The status after a backup.
pub fn backup_success(at: i128, file: &str, key_count: usize) -> (r: BackupStatus)
    ensures
        r.deep_view() == success_status(at, file@, key_count),
{
    BackupStatus {
        last_backup_at: Some(at),
        last_backup_file: Some(file.to_owned()),
        key_count: Some(key_count),
        status: "success".to_owned(),
    }
}

/// Where the status of the last backup is kept.
pub fn last_backup_key() -> (r: &'static str)
    ensures
        r@ == "/registry/_backup/last"@,
{
    "/registry/_backup/last"
}

/// What is said of the last backup: `stored` tells whether the store has
/// anything of it, and `read` is what could be read of that.
pub fn backup_status(stored: bool, read: Option<BackupStatus>) -> (r: BackupStatus)
    ensures
        r.deep_view() == if !stored {
            bare_status("no_backup"@)
        } else {
            match read {
                Some(s) => s.deep_view(),
                None => bare_status("unknown"@),
            }
        },
{
    let status: &'static str = if !stored {
        "no_backup"
    } else {
        match read {
            Some(s) => {
                return s;
            },
            None => "unknown",
        }
    };
    BackupStatus {
        last_backup_at: None,
        last_backup_file: None,
        key_count: None,
        status: status.to_owned(),
    }
}

/// The answer to a request for a backup while a restore is in progress.
pub fn refuse_backup(restore_in_progress: bool) -> (r: Option<Reply>)
    ensures
        r.deep_view() == if restore_in_progress {
            Some(json_answer(503, one_text("error"@, "restore in progress"@)))
        } else {
            None
        },
{
    proof {
        lemma_keys();
    }
    if restore_in_progress {
        Some(text_reply(503, "error", "restore in progress"))
    } else {
        None
    }
}

/// The answer to a request for a backup that failed.
pub fn backup_failed(error: &str) -> (r: Reply)
    ensures
        r.deep_view() == json_answer(500, one_text("error"@, error@)),
{
    proof {
        lemma_keys();
    }
    text_reply(500, "error", error)
}

/// How a backup is offered for download.
pub fn content_disposition(filename: &str) -> (r: String)
    ensures
        r@ == "attachment; filename=\""@ + filename@ + "\""@,
{
    cat3("attachment; filename=\"", filename, "\"")
}

// ---------------------------------------------------------------------------
// Restoring
// ---------------------------------------------------------------------------

/// A point in time as JSON.
pub open spec fn time_value(t: i128) -> JsonV {
    JsonV::Text(json_time(t))
}

fn time_json(t: i128) -> (r: Json)
    requires
        valid_time(t),
    ensures
        r.deep_view() == time_value(t),
{
    text(time_in_json(t).as_str())
}

/// What a restore that only looks at a backup answers.
pub open spec fn dry_run_value(b: BackupFileV) -> JsonV {
    JsonV::Object(
        map![
            "dry_run"@ => JsonV::Bool(true),
            "would_restore"@ => JsonV::UInt(b.key_count as u64),
            "backup_created_at"@ => time_value(b.created_at),
            "backup_version"@ => JsonV::Text(b.version),
            "cluster_name"@ => JsonV::Text(b.cluster_name)
        ],
    )
}

/// What follows an uploaded backup: an answer, or a restore.
pub open spec fn restore_decision(
    parsed: Result<BackupFileV, Seq<char>>,
    expected: Seq<char>,
    dry_run: bool,
) -> Option<ReplyV> {
    match parsed {
        Err(e) => Some(json_answer(400, one_text("error"@, "Failed to parse backup: "@ + e))),
        Ok(b) => match backup_fault(b, expected) {
            Some(e) => Some(json_answer(400, one_text("error"@, "Invalid backup: "@ + e))),
            None => if dry_run {
                Some(json_answer(200, dry_run_value(b)))
            } else {
                None
            },
        },
    }
}

/// The contents of what was read of an uploaded backup.
pub open spec fn parsed_view(parsed: Result<BackupFile, String>) -> Result<BackupFileV, Seq<char>> {
    match parsed {
        Ok(b) => Ok(b.deep_view()),
        Err(e) => Err(e@),
    }
}

/// The answer to a request for a restore from a server that does not lead.
pub fn refuse_restore(is_leader: bool) -> (r: Option<Reply>)
    ensures
        r.deep_view() == if is_leader {
            None
        } else {
            Some(
                json_answer(403, one_text("error"@, "restore can only be triggered on the leader"@)),
            )
        },
{
    proof {
        lemma_keys();
    }
    if is_leader {
        None
    } else {
        Some(text_reply(403, "error", "restore can only be triggered on the leader"))
    }
}

/// Decides what follows an uploaded backup: an answer, or, without one, a
/// restore. Only a valid backup is restored, and a dry run restores nothing.
pub fn do_restore(parsed: &Result<BackupFile, String>, expected: &str, dry_run: bool) -> (r: Option<
    Reply,
>)
    requires
        parsed is Ok ==> valid_time(parsed->Ok_0.created_at),
    ensures
        r.deep_view() == restore_decision(parsed_view(*parsed), expected@, dry_run),
{
    proof {
        lemma_keys();
    }
    match parsed {
        Err(e) => Some(
            text_reply(400, "error", cat("Failed to parse backup: ", e.as_str()).as_str()),
        ),
        Ok(b) => match validate_backup(b, expected) {
            Err(e) => Some(
                text_reply(400, "error", cat("Invalid backup: ", e.as_str()).as_str()),
            ),
            Ok(_) => if dry_run {
                let j: Json = Fields::new().with("dry_run", Json::Bool(true)).with(
                    "would_restore",
                    Json::UInt(b.key_count as u64),
                ).with("backup_created_at", time_json(b.created_at)).with(
                    "backup_version",
                    text(b.version.as_str()),
                ).with("cluster_name", text(b.cluster_name.as_str())).object();
                assert(j.deep_view() == dry_run_value(b.deep_view()));
                Some(json_reply(200, j))
            } else {
                None
            },
        },
    }
}

/// Whether a key is about backups and restores themselves and outlives them.
pub open spec fn is_metadata(key: Seq<char>) -> bool {
    has_prefix(key, "/registry/_restore/"@) || has_prefix(key, "/registry/_backup/"@)
}

/// A change of the store.
#[derive(Debug)]
pub enum StoreOp {
    /// Remove a key.
    Delete(String),
    /// Set a key to a text.
    Put(String, String),
}

/// The contents of a [`StoreOp`].
pub enum StoreOpV {
    Delete(Seq<char>),
    Put(Seq<char>, Seq<u8>),
}

impl DeepView for StoreOp {
    type V = StoreOpV;

    open spec fn deep_view(&self) -> StoreOpV {
        match self {
            StoreOp::Delete(k) => StoreOpV::Delete(k@),
            StoreOp::Put(k, t) => StoreOpV::Put(k@, encode_utf8(t@)),
        }
    }
}

/// Removes a key, unless it outlives a restore.
pub open spec fn wipe_rule() -> spec_fn(Seq<char>) -> Option<StoreOpV> {
    |k: Seq<char>|
        if is_metadata(k) {
            None
        } else {
            Some(StoreOpV::Delete(k))
        }
}

/// The changes that write some entries.
pub open spec fn import(entries: Seq<BackupEntryV>) -> Seq<StoreOpV> {
    entries.map_values(
        |e: BackupEntryV| StoreOpV::Put(e.key, encode_utf8(compact_text(e.value))),
    )
}

/// Whether what is written for a value reads as that value again.
pub open spec fn reads_back(v: JsonV) -> bool {
    json_in(encode_utf8(compact_text(v))) == Some(v)
}

/// The changes that make up a restore.
pub struct RestorePlan {
    /// The changes, in order.
    pub ops: Vec<StoreOp>,
    /// How many of them write an entry.
    pub imported: usize,
}

/// Whether no two entries have the same key.
pub open spec fn entries_distinct(entries: Seq<BackupEntryV>) -> bool {
    forall|a: int, b: int|
        0 <= a < b < entries.len() ==> (#[trigger] entries[a]).key != (#[trigger] entries[b]).key
}

/// Whether a list holds exactly the keys of a store.
pub open spec fn holds_keys(m: Map<Seq<char>, Seq<u8>>, keys: Seq<Seq<char>>) -> bool {
    forall|k: Seq<char>| m.contains_key(k) <==> #[trigger] keys.contains(k)
}

/// Plans a restore: every key but those about backups and restores is removed,
/// then the entries are written. Whatever the store held, after the changes each
/// key of the backup has a value that reads as the one in the backup, where that
/// has integers only and is nested less than 128 deep.
pub fn perform_restore(existing: &Vec<String>, backup: &BackupFile) -> (r: RestorePlan)
    ensures
        r.ops.deep_view() == existing.deep_view().filter_map(wipe_rule()) + import(
            backup.deep_view().entries,
        ),
        r.imported == backup.entries@.len(),
        forall|i: int|
            0 <= i < backup.entries@.len() && is_plain(
                value_of((#[trigger] backup.entries@[i]).value),
                127,
            ) ==> reads_back(value_of(backup.entries@[i].value)),
        forall|m: Map<Seq<char>, Seq<u8>>, i: int|
            #![trigger changed_by(m, r.ops.deep_view()), backup.entries@[i]]
            {
                &&& holds_keys(m, existing.deep_view())
                &&& entries_distinct(backup.deep_view().entries)
                &&& 0 <= i < backup.entries@.len()
                &&& is_plain(value_of(backup.entries@[i].value), 127)
            } ==> {
                let after = changed_by(m, r.ops.deep_view());
                &&& after.contains_key(backup.entries@[i].key@)
                &&& json_in(after[backup.entries@[i].key@]) == Some(
                    value_of(backup.entries@[i].value),
                )
            },
{
    let ghost keys = existing.deep_view();
    let mut ops: Vec<StoreOp> = Vec::new();
    let mut i: usize = 0;
    proof {
        assert(keys.take(0) =~= Seq::<Seq<char>>::empty());
        reveal(Seq::filter_map);
        assert(ops.deep_view() =~= keys.take(0).filter_map(wipe_rule()));
    }
    while i < existing.len()
        invariant
            i <= existing@.len(),
            keys == existing.deep_view(),
            ops.deep_view() == keys.take(i as int).filter_map(wipe_rule()),
        decreases existing@.len() - i,
    {
        let ghost before = ops.deep_view();
        proof {
            lemma_filter_map_step(keys, wipe_rule(), i as int);
            assert(keys[i as int] == existing@[i as int]@);
        }
        let k: &str = existing[i].as_str();
        if !starts_with(k, "/registry/_restore/") && !starts_with(k, "/registry/_backup/") {
            ops.push(StoreOp::Delete(existing[i].clone()));
            assert(ops.deep_view() =~= before.push(StoreOpV::Delete(k@)));
        }
        i = i + 1;
    }
    assert(keys.take(i as int) =~= keys);
    let ghost wipes = ops.deep_view();
    let ghost all = backup.entries.deep_view();
    let mut j: usize = 0;
    assert(ops.deep_view() =~= wipes + import(all.take(0)));
    while j < backup.entries.len()
        invariant
            j <= backup.entries.len(),
            all == backup.entries.deep_view(),
            ops.deep_view() == wipes + import(all.take(j as int)),
            forall|k: int|
                0 <= k < j && is_plain(
                    value_of((#[trigger] backup.entries@[k]).value),
                    127,
                ) ==> reads_back(value_of(backup.entries@[k].value)),
        decreases backup.entries.len() - j,
    {
        let ghost before = ops.deep_view();
        let e: &BackupEntry = &backup.entries[j];
        let t: String = write_value(&e.value).unwrap();
        let ghost op = StoreOpV::Put(e.key@, encode_utf8(t@));
        ops.push(StoreOp::Put(e.key.clone(), t));
        proof {
            assert(all[j as int] == e.deep_view());
            assert(ops.deep_view() =~= before.push(op));
            assert(import(all.take(j + 1)) =~= import(all.take(j as int)).push(op));
            assert(ops.deep_view() =~= wipes + import(all.take(j + 1)));
        }
        j = j + 1;
    }
    assert(all.take(j as int) =~= all);
    let r: RestorePlan = RestorePlan { ops, imported: j };
    proof {
        assert forall|m: Map<Seq<char>, Seq<u8>>, i: int|
            #![trigger changed_by(m, r.ops.deep_view()), backup.entries@[i]]
            {
                &&& holds_keys(m, keys)
                &&& entries_distinct(all)
                &&& 0 <= i < backup.entries@.len()
                &&& is_plain(value_of(backup.entries@[i].value), 127)
            } implies {
            let after = changed_by(m, r.ops.deep_view());
            &&& after.contains_key(backup.entries@[i].key@)
            &&& json_in(after[backup.entries@[i].key@]) == Some(value_of(backup.entries@[i].value))
        } by {
            assert(all[i] == backup.entries@[i].deep_view());
            law_restore_replaces(m, keys, all);
            lemma_written(metadata_of(m), all, i);
        }
    }
    r
}

/// What the store is told as a restore begins.
pub fn restore_begins() -> (r: StoreOp)
    ensures
        r.deep_view() == StoreOpV::Put(
            "/registry/_restore/status"@,
            encode_utf8("in_progress"@),
        ),
{
    StoreOp::Put("/registry/_restore/status".to_owned(), "in_progress".to_owned())
}

/// What the store is told after a restore: its epoch, by which followers notice
/// it, and how it went.
pub fn restore_ends(succeeded: bool, epoch: i64) -> (r: Vec<StoreOp>)
    ensures
        r.deep_view() == if succeeded {
            seq![
                StoreOpV::Put(
                    "/registry/_restore/epoch"@,
                    encode_utf8(signed_decimal(epoch as int)),
                ),
                StoreOpV::Put("/registry/_restore/status"@, encode_utf8("completed"@)),
            ]
        } else {
            seq![StoreOpV::Put("/registry/_restore/status"@, encode_utf8("failed"@))]
        },
{
    let mut out: Vec<StoreOp> = Vec::new();
    if succeeded {
        out.push(StoreOp::Put("/registry/_restore/epoch".to_owned(), i64_to_string(epoch)));
        out.push(StoreOp::Put("/registry/_restore/status".to_owned(), "completed".to_owned()));
        assert(out.deep_view() =~= seq![
            StoreOpV::Put(
                "/registry/_restore/epoch"@,
                encode_utf8(signed_decimal(epoch as int)),
            ),
            StoreOpV::Put("/registry/_restore/status"@, encode_utf8("completed"@)),
        ]);
    } else {
        out.push(StoreOp::Put("/registry/_restore/status".to_owned(), "failed".to_owned()));
        assert(out.deep_view() =~= seq![
            StoreOpV::Put("/registry/_restore/status"@, encode_utf8("failed"@)),
        ]);
    }
    out
}

/// What a restore that was carried out answers.
pub open spec fn restored_value(imported: usize, created_at: i128) -> JsonV {
    JsonV::Object(
        map![
            "status"@ => JsonV::Text("completed"@),
            "imported"@ => JsonV::UInt(imported as u64),
            "backup_created_at"@ => time_value(created_at)
        ],
    )
}

/// The answer after a restore.
pub fn restore_reply(result: Result<usize, &str>, created_at: i128) -> (r: Reply)
    requires
        valid_time(created_at),
    ensures
        r.deep_view() == match result {
            Ok(n) => json_answer(200, restored_value(n, created_at)),
            Err(e) => json_answer(500, one_text("error"@, "Restore failed: "@ + e@)),
        },
        json_in(encode_utf8(r.body@)) == Some(
            match result {
                Ok(n) => restored_value(n, created_at),
                Err(e) => one_text("error"@, "Restore failed: "@ + e@),
            },
        ),
{
    proof {
        lemma_keys();
    }
    match result {
        Ok(n) => {
            let j: Json = Fields::new().with("status", text("completed")).with(
                "imported",
                Json::UInt(n as u64),
            ).with("backup_created_at", time_json(created_at)).object();
            assert(j.deep_view() == restored_value(n, created_at));
            json_reply(200, j)
        },
        Err(e) => text_reply(500, "error", cat("Restore failed: ", e).as_str()),
    }
}

/// The answer to any request but those about restores while one is in progress.
pub fn restore_guard(restore_in_progress: bool, path: &str) -> (r: Option<Reply>)
    ensures
        r.deep_view() == if restore_in_progress && !has_infix(path@, "/restore"@) {
            Some(json_answer(503, one_text("error"@, "cluster restore in progress"@)))
        } else {
            None
        },
{
    proof {
        lemma_keys();
    }
    if restore_in_progress && !contains(path, "/restore") {
        Some(text_reply(503, "error", "cluster restore in progress"))
    } else {
        None
    }
}

// ---------------------------------------------------------------------------
// Laws
// ---------------------------------------------------------------------------

/// A store after a change.
pub open spec fn changed(m: Map<Seq<char>, Seq<u8>>, op: StoreOpV) -> Map<Seq<char>, Seq<u8>> {
    match op {
        StoreOpV::Delete(k) => m.remove(k),
        StoreOpV::Put(k, b) => m.insert(k, b),
    }
}

/// A store after some changes.
pub open spec fn changed_by(m: Map<Seq<char>, Seq<u8>>, ops: Seq<StoreOpV>) -> Map<
    Seq<char>,
    Seq<u8>,
>
    decreases ops.len(),
{
    if ops.len() == 0 {
        m
    } else {
        changed(changed_by(m, ops.drop_last()), ops.last())
    }
}

/// What outlives a restore.
pub open spec fn metadata_of(m: Map<Seq<char>, Seq<u8>>) -> Map<Seq<char>, Seq<u8>> {
    m.restrict(m.dom().filter(|k: Seq<char>| is_metadata(k)))
}

/// A store with some entries written, later ones over earlier ones.
pub open spec fn with_entries(m: Map<Seq<char>, Seq<u8>>, entries: Seq<BackupEntryV>) -> Map<
    Seq<char>,
    Seq<u8>,
>
    decreases entries.len(),
{
    if entries.len() == 0 {
        m
    } else {
        with_entries(m, entries.drop_last()).insert(
            entries.last().key,
            encode_utf8(compact_text(entries.last().value)),
        )
    }
}

proof fn lemma_changed_by_concat(m: Map<Seq<char>, Seq<u8>>, a: Seq<StoreOpV>, b: Seq<StoreOpV>)
    ensures
        changed_by(m, a + b) == changed_by(changed_by(m, a), b),
    decreases b.len(),
{
    if b.len() == 0 {
        assert(a + b =~= a);
    } else {
        assert((a + b).drop_last() =~= a + b.drop_last());
        assert((a + b).last() == b.last());
        lemma_changed_by_concat(m, a, b.drop_last());
    }
}

proof fn lemma_wiped(m: Map<Seq<char>, Seq<u8>>, keys: Seq<Seq<char>>)
    ensures
        forall|k: Seq<char>| #[trigger]
            changed_by(m, keys.filter_map(wipe_rule())).contains_key(k) <==> m.contains_key(k) && (
            is_metadata(k) || !keys.contains(k)),
        forall|k: Seq<char>| #[trigger]
            changed_by(m, keys.filter_map(wipe_rule())).contains_key(k) ==> changed_by(
                m,
                keys.filter_map(wipe_rule()),
            )[k] == m[k],
    decreases keys.len(),
{
    reveal(Seq::filter_map);
    let all = keys.filter_map(wipe_rule());
    if keys.len() > 0 {
        let t = keys.drop_last();
        let last = keys.last();
        lemma_wiped(m, t);
        let part = t.filter_map(wipe_rule());
        assert(t.take(t.len() as int) =~= t);
        assert(keys.take(keys.len() as int) =~= keys);
        assert(keys.take(keys.len() - 1) =~= t);
        lemma_filter_map_step(keys, wipe_rule(), keys.len() - 1);
        let before = changed_by(m, part);
        let after = changed_by(m, all);
        if !is_metadata(last) {
            assert(all == part.push(StoreOpV::Delete(last)));
            assert(part.push(StoreOpV::Delete(last)).drop_last() =~= part);
            assert(after == before.remove(last));
        } else {
            assert(all == part);
        }
        assert forall|k: Seq<char>| #[trigger] after.contains_key(k) <==> m.contains_key(k) && (
        is_metadata(k) || !keys.contains(k)) by {
            assert(before.contains_key(k) <==> m.contains_key(k) && (is_metadata(k) || !t.contains(
                k,
            )));
            if keys.contains(k) && k != last {
                let i = choose|i: int| 0 <= i < keys.len() && keys[i] == k;
                assert(t[i] == k);
            }
            if t.contains(k) {
                let i = choose|i: int| 0 <= i < t.len() && t[i] == k;
                assert(keys[i] == k);
            }
            if k == last {
                assert(keys[keys.len() - 1] == k);
            }
        }
        assert forall|k: Seq<char>| #[trigger] after.contains_key(k) implies after[k] == m[k] by {
            assert(before.contains_key(k));
        }
    } else {
        assert(all =~= Seq::<StoreOpV>::empty());
    }
}

proof fn lemma_imported(m: Map<Seq<char>, Seq<u8>>, entries: Seq<BackupEntryV>)
    ensures
        changed_by(m, import(entries)) == with_entries(m, entries),
    decreases entries.len(),
{
    if entries.len() > 0 {
        lemma_imported(m, entries.drop_last());
        assert(import(entries).drop_last() =~= import(entries.drop_last()));
    }
}

/// A restore leaves exactly what the backup holds and what is about backups and
/// restores themselves: everything else is gone.
pub proof fn law_restore_replaces(
    m: Map<Seq<char>, Seq<u8>>,
    existing: Seq<Seq<char>>,
    entries: Seq<BackupEntryV>,
)
    requires
        holds_keys(m, existing),
    ensures
        changed_by(m, existing.filter_map(wipe_rule()) + import(entries)) == with_entries(
            metadata_of(m),
            entries,
        ),
{
    let wipes = existing.filter_map(wipe_rule());
    lemma_changed_by_concat(m, wipes, import(entries));
    lemma_wiped(m, existing);
    assert(changed_by(m, wipes) =~= metadata_of(m)) by {
        assert forall|k: Seq<char>| changed_by(m, wipes).contains_key(k) == metadata_of(
            m,
        ).contains_key(k) by {
            assert(m.contains_key(k) <==> existing.contains(k));
        }
    }
    lemma_imported(metadata_of(m), entries);
}

/// Whether no key occurs twice in a snapshot.
pub open spec fn distinct_keys(snapshot: Seq<(Seq<char>, Seq<u8>)>) -> bool {
    forall|i: int, j: int|
        0 <= i < j < snapshot.len() ==> (#[trigger] snapshot[i]).0 != (#[trigger] snapshot[j]).0
}

proof fn lemma_entry_keys(snapshot: Seq<(Seq<char>, Seq<u8>)>)
    requires
        distinct_keys(snapshot),
    ensures
        forall|k: int|
            0 <= k < snapshot.filter_map(entry_rule()).len() ==> exists|i: int|
                0 <= i < snapshot.len() && (#[trigger] snapshot[i]).0 == (
                #[trigger] snapshot.filter_map(entry_rule())[k]).key && json_in(snapshot[i].1)
                    == Some(snapshot.filter_map(entry_rule())[k].value),
        forall|a: int, b: int|
            0 <= a < b < snapshot.filter_map(entry_rule()).len() ==> (
            #[trigger] snapshot.filter_map(entry_rule())[a]).key != (
            #[trigger] snapshot.filter_map(entry_rule())[b]).key,
    decreases snapshot.len(),
{
    reveal(Seq::filter_map);
    let f = entry_rule();
    let r = snapshot.filter_map(f);
    if snapshot.len() > 0 {
        let t = snapshot.drop_last();
        let n = snapshot.len() - 1;
        let p = t.filter_map(f);
        assert forall|i: int, j: int| 0 <= i < j < t.len() implies (#[trigger] t[i]).0 != (
        #[trigger] t[j]).0 by {
            assert(t[i] == snapshot[i] && t[j] == snapshot[j]);
        }
        lemma_entry_keys(t);
        assert(snapshot.take(n) =~= t);
        assert(snapshot.take(n + 1) =~= snapshot);
        lemma_filter_map_step(snapshot, f, n);
        assert forall|k: int| 0 <= k < r.len() implies exists|i: int|
            0 <= i < snapshot.len() && (#[trigger] snapshot[i]).0 == (#[trigger] r[k]).key
                && json_in(snapshot[i].1) == Some(r[k].value) by {
            if k < p.len() {
                assert(r[k] == p[k]);
                let i = choose|i: int|
                    0 <= i < t.len() && (#[trigger] t[i]).0 == p[k].key && json_in(t[i].1) == Some(
                        p[k].value,
                    );
                assert(snapshot[i] == t[i]);
            } else {
                assert(snapshot[n].0 == r[k].key);
            }
        }
        assert forall|a: int, b: int| 0 <= a < b < r.len() implies (#[trigger] r[a]).key != (
        #[trigger] r[b]).key by {
            assert(r[a] == p[a]);
            if b < p.len() {
                assert(r[b] == p[b]);
            } else {
                let i = choose|i: int|
                    0 <= i < t.len() && (#[trigger] t[i]).0 == p[a].key && json_in(t[i].1) == Some(
                        p[a].value,
                    );
                assert(snapshot[i] == t[i]);
                assert(snapshot[i].0 != snapshot[n].0);
            }
        }
    }
}

proof fn lemma_written(m: Map<Seq<char>, Seq<u8>>, entries: Seq<BackupEntryV>, i: int)
    requires
        0 <= i < entries.len(),
        entries_distinct(entries),
    ensures
        with_entries(m, entries).contains_key(entries[i].key),
        with_entries(m, entries)[entries[i].key] == encode_utf8(compact_text(entries[i].value)),
    decreases entries.len(),
{
    if i < entries.len() - 1 {
        let t = entries.drop_last();
        assert(t[i] == entries[i]);
        assert forall|a: int, b: int| 0 <= a < b < t.len() implies (#[trigger] t[a]).key != (
        #[trigger] t[b]).key by {
            assert(t[a] == entries[a] && t[b] == entries[b]);
        }
        lemma_written(m, t, i);
        assert(entries[entries.len() - 1].key != entries[i].key);
    }
}

/// Restoring a backup brings back the snapshot that it was made of, whatever was
/// in the store before: every key whose value was JSON has a value that reads
/// the same again.
pub proof fn law_restore_brings_back(
    snapshot: Seq<(Seq<char>, Seq<u8>)>,
    ca_cert: Seq<char>,
    version: Seq<char>,
    now: i128,
    m: Map<Seq<char>, Seq<u8>>,
    existing: Seq<Seq<char>>,
    i: int,
)
    requires
        distinct_keys(snapshot),
        holds_keys(m, existing),
        0 <= i < snapshot.len(),
        json_in(snapshot[i].1) is Some,
        reads_back(json_in(snapshot[i].1)->0),
    ensures
        ({
            let entries = backup_of(snapshot, ca_cert, version, now).entries;
            let after = changed_by(m, existing.filter_map(wipe_rule()) + import(entries));
            &&& after.contains_key(snapshot[i].0)
            &&& json_in(after[snapshot[i].0]) == json_in(snapshot[i].1)
        }),
{
    let entries = backup_of(snapshot, ca_cert, version, now).entries;
    law_restore_replaces(m, existing, entries);
    lemma_entry_keys(snapshot);
    crate::collections::lemma_filter_map_has(snapshot, entry_rule(), i);
    let e = entry_rule()(snapshot[i])->0;
    let k = choose|k: int| 0 <= k < entries.len() && entries[k] == e;
    lemma_written(metadata_of(m), entries, k);
}

/// A backup is restored exactly if it has the expected version and at least one
/// entry, and a dry run restores nothing.
pub proof fn law_valid_backups_are_restored(b: BackupFileV, expected: Seq<char>)
    ensures
        restore_decision(Ok(b), expected, false) is None <==> b.version == expected
            && b.entries.len() > 0,
        restore_decision(Ok(b), expected, true) is Some,
{
}

/// A backup holds exactly the keys of the snapshot whose values are JSON, each with
/// its value, counts them, and carries the version, the time and the authority's
/// certificate.
pub proof fn law_backup_holds_the_snapshot(
    snapshot: Vec<(String, Vec<u8>)>,
    ca_cert: &str,
    version: &str,
    now: i128,
    r: BackupFile,
    i: int,
    k: int,
)
    requires
        call_ensures(create_backup, (&snapshot, ca_cert, version, now), r),
        0 <= i < snapshot.len(),
    ensures
        r.version@ == version@,
        r.created_at == now,
        r.cluster_name@ == "k3rs"@,
        r.ca_cert@ == ca_cert@,
        r.key_count == r.entries.len(),
        r.entries.len() <= snapshot.len(),
        json_in(snapshot[i].1@) matches Some(v) ==> r.deep_view().entries.contains(
            BackupEntryV { key: snapshot[i].0@, value: v },
        ),
        0 <= k < r.entries.len() ==> exists|j: int|
            0 <= j < snapshot.len() && (#[trigger] snapshot[j]).0@ == r.entries[k].key@ && json_in(
                snapshot[j].1@,
            ) == Some(value_of(r.entries[k].value)),
{
    let all = snapshot_view(snapshot@);
    let rule = entry_rule();
    let out = r.deep_view().entries;
    assert(out.len() == r.entries.len());
    lemma_map_no_longer(all, rule);
    assert(all[i] == (snapshot[i].0@, snapshot[i].1@));
    if json_in(snapshot[i].1@) is Some {
        lemma_filter_map_has(all, rule, i);
        let m = choose|m: int| 0 <= m < out.len() && out[m] == rule(all[i])->0;
        assert(out.contains(out[m]));
    }
    if 0 <= k < r.entries.len() {
        assert(out.contains(out[k]));
        all.lemma_filter_map_contains(rule, out[k]);
        let j = choose|j: int| 0 <= j < all.len() && #[trigger] rule(all[j]) == Some(out[k]);
        assert(snapshot[j].0@ == all[j].0);
    }
}

proof fn lemma_map_no_longer<A, B>(s: Seq<A>, f: spec_fn(A) -> Option<B>)
    ensures
        s.filter_map(f).len() <= s.len(),
    decreases s.len(),
{
    reveal(Seq::filter_map);
    if s.len() > 0 {
        let n = s.len() - 1;
        lemma_filter_map_step(s, f, n);
        assert(s.take(n + 1) =~= s);
        assert(s.take(n) =~= s.drop_last());
        lemma_map_no_longer(s.drop_last(), f);
    }
}

proof fn lemma_node_count(s: Seq<(Seq<char>, Seq<u8>)>)
    ensures
        s.filter_map(node_rule()).len() == s.filter(
            |e: (Seq<char>, Seq<u8>)| has_prefix(e.0, "/registry/nodes/"@),
        ).len(),
    decreases s.len(),
{
    reveal(Seq::filter);
    if s.len() == 0 {
        reveal(Seq::filter_map);
    } else {
        let n = s.len() - 1;
        lemma_filter_map_step(s, node_rule(), n);
        assert(s.take(n + 1) =~= s);
        assert(s.take(n) =~= s.drop_last());
        lemma_node_count(s.drop_last());
    }
}

/// A backup counts as nodes the keys of the snapshot under the prefix of nodes.
pub proof fn law_backup_counts_nodes(
    snapshot: Vec<(String, Vec<u8>)>,
    ca_cert: &str,
    version: &str,
    now: i128,
    r: BackupFile,
)
    requires
        call_ensures(create_backup, (&snapshot, ca_cert, version, now), r),
    ensures
        r.node_count == snapshot_view(snapshot@).filter(
            |e: (Seq<char>, Seq<u8>)| has_prefix(e.0, "/registry/nodes/"@),
        ).len(),
{
    lemma_node_count(snapshot_view(snapshot@));
    lemma_map_no_longer(snapshot_view(snapshot@), node_rule());
    assert(snapshot@.len() == snapshot.len());
}

/// A backup is valid exactly where it has the expected version and an entry.
pub proof fn law_backup_is_valid(backup: BackupFile, expected: &str, r: Result<(), String>)
    requires
        call_ensures(validate_backup, (&backup, expected), r),
    ensures
        r is Ok <==> backup.version@ == expected@ && backup.entries.len() > 0,
        backup.version@ == expected@ && r is Err ==> r->Err_0@ == "Backup contains no entries"@,
{
    assert(backup.entries.deep_view().len() == backup.entries.len());
}

/// A restore goes on exactly where the backup could be read, is valid, and is not
/// only to be tried. What cannot be read or is not valid is answered with 400, and a
/// trial with 200.
pub proof fn law_restore_goes_on(
    parsed: Result<BackupFile, String>,
    expected: &str,
    dry_run: bool,
    r: Option<Reply>,
)
    requires
        call_ensures(do_restore, (&parsed, expected, dry_run), r),
    ensures
        ({
            let valid = parsed is Ok && parsed->Ok_0.version@ == expected@
                && parsed->Ok_0.entries.len() > 0;
            &&& r is None <==> valid && !dry_run
            &&& !valid ==> r is Some && r->0.status == 400
            &&& valid && dry_run ==> r is Some && r->0.status == 200
        }),
{
    if parsed is Ok {
        assert(parsed->Ok_0.entries.deep_view().len() == parsed->Ok_0.entries.len());
    }
}

/// Only the leader restores, no backup is made during a restore, and during one
/// every request but those about it is put off.
pub proof fn law_restore_keeps_others_out(
    is_leader: bool,
    in_progress: bool,
    path: &str,
    refused: Option<Reply>,
    no_backup: Option<Reply>,
    put_off: Option<Reply>,
)
    requires
        call_ensures(refuse_restore, (is_leader,), refused),
        call_ensures(refuse_backup, (in_progress,), no_backup),
        call_ensures(restore_guard, (in_progress, path), put_off),
    ensures
        refused is None <==> is_leader,
        refused matches Some(x) ==> x.status == 403,
        no_backup is None <==> !in_progress,
        no_backup matches Some(x) ==> x.status == 503,
        put_off is Some <==> in_progress && forall|i: int|
            0 <= i && i + 8 <= path@.len() ==> #[trigger] path@.subrange(i, i + 8) != "/restore"@,
        put_off matches Some(x) ==> x.status == 503,
{
    reveal_strlit("/restore");
    let p = "/restore"@;
    assert(p.len() == 8);
    if has_infix(path@, p) {
        let i = choose|i: int| occurs_at(path@, p, i);
        assert(path@.subrange(i, i + 8) == p);
    }
    if exists|i: int|
        0 <= i && i + 8 <= path@.len() && #[trigger] path@.subrange(i, i + 8) == "/restore"@ {
        let i = choose|i: int|
            0 <= i && i + 8 <= path@.len() && #[trigger] path@.subrange(i, i + 8) == "/restore"@;
        assert(occurs_at(path@, p, i));
    }
}

/// A restore leaves the store with exactly what the backup holds, and with the
/// records of backups and restores: every other key is gone, every entry has its
/// value, and the records that the backup does not hold stay as they were.
pub proof fn law_restore_leaves_the_backup(
    existing: Vec<String>,
    backup: BackupFile,
    r: RestorePlan,
    m: Map<Seq<char>, Seq<u8>>,
    key: Seq<char>,
)
    requires
        call_ensures(perform_restore, (&existing, &backup), r),
        forall|k: Seq<char>| m.contains_key(k) <==> #[trigger] existing.deep_view().contains(k),
        forall|a: int, b: int|
            0 <= a < b < backup.entries.len() ==> (#[trigger] backup.entries[a]).key@ != (
            #[trigger] backup.entries[b]).key@,
    ensures
        ({
            let after = changed_by(m, r.ops.deep_view());
            let kept = has_prefix(key, "/registry/_restore/"@) || has_prefix(
                key,
                "/registry/_backup/"@,
            );
            let held = exists|i: int|
                0 <= i < backup.entries.len() && (#[trigger] backup.entries[i]).key@ == key;
            &&& after.contains_key(key) <==> held || kept && m.contains_key(key)
            &&& !held && kept && m.contains_key(key) ==> after[key] == m[key]
            &&& forall|i: int|
                0 <= i < backup.entries.len() && (#[trigger] backup.entries[i]).key@ == key
                    ==> after[key] == encode_utf8(
                    compact_text(value_of(backup.entries[i].value)),
                )
        }),
        r.imported == backup.entries.len(),
{
    let entries = backup.deep_view().entries;
    let keys = existing.deep_view();
    assert(holds_keys(m, keys));
    law_restore_replaces(m, keys, entries);
    let base = metadata_of(m);
    lemma_with_entries(base, entries, key);
    assert(entries.len() == backup.entries.len());
    assert forall|a: int| 0 <= a < entries.len() implies (#[trigger] entries[a]).key
        == backup.entries[a].key@ && entries[a].value == value_of(backup.entries[a].value) by {}
    assert(entries_distinct(entries)) by {
        assert forall|a: int, b: int| 0 <= a < b < entries.len() implies (#[trigger] entries[a]).key
            != (#[trigger] entries[b]).key by {
            assert(backup.entries[a].key@ != backup.entries[b].key@);
        }
    }
    assert forall|i: int|
        0 <= i < backup.entries.len() && (#[trigger] backup.entries[i]).key@ == key implies changed_by(
        m,
        r.ops.deep_view(),
    )[key] == encode_utf8(compact_text(value_of(backup.entries[i].value))) by {
        lemma_written(base, entries, i);
        assert(entries[i].key == key);
    }
    if exists|i: int| 0 <= i < backup.entries.len() && (#[trigger] backup.entries[i]).key@ == key {
        let i = choose|i: int|
            0 <= i < backup.entries.len() && (#[trigger] backup.entries[i]).key@ == key;
        assert(entries[i].key == key);
    }
}

proof fn lemma_with_entries(
    m: Map<Seq<char>, Seq<u8>>,
    entries: Seq<BackupEntryV>,
    key: Seq<char>,
)
    ensures
        with_entries(m, entries).contains_key(key) <==> m.contains_key(key) || exists|i: int|
            0 <= i < entries.len() && (#[trigger] entries[i]).key == key,
        (forall|i: int| 0 <= i < entries.len() ==> (#[trigger] entries[i]).key != key)
            && m.contains_key(key) ==> with_entries(m, entries)[key] == m[key],
    decreases entries.len(),
{
    if entries.len() > 0 {
        let init = entries.drop_last();
        lemma_with_entries(m, init, key);
        let n = entries.len() - 1;
        assert(entries[n] == entries.last());
        if exists|i: int| 0 <= i < init.len() && (#[trigger] init[i]).key == key {
            let i = choose|i: int| 0 <= i < init.len() && (#[trigger] init[i]).key == key;
            assert(entries[i].key == key);
        }
        if exists|i: int| 0 <= i < entries.len() && (#[trigger] entries[i]).key == key {
            let i = choose|i: int| 0 <= i < entries.len() && (#[trigger] entries[i]).key == key;
            if i < n {
                assert(init[i].key == key);
            }
        }
        if forall|i: int| 0 <= i < entries.len() ==> (#[trigger] entries[i]).key != key {
            assert forall|i: int| 0 <= i < init.len() implies (#[trigger] init[i]).key != key by {
                assert(init[i] == entries[i]);
            }
        }
    }
}

/// A restore that succeeded writes a new epoch before it says that it is completed;
/// one that failed writes no epoch and says so.
pub proof fn law_restore_ends_with_its_status(succeeded: bool, epoch: i64, r: Vec<StoreOp>)
    requires
        call_ensures(restore_ends, (succeeded, epoch), r),
    ensures
        r.len() > 0,
        r.deep_view().last() == StoreOpV::Put(
            "/registry/_restore/status"@,
            encode_utf8(
                if succeeded {
                    "completed"@
                } else {
                    "failed"@
                },
            ),
        ),
        succeeded <==> exists|i: int|
            0 <= i < r.deep_view().len() && #[trigger] r.deep_view()[i] == StoreOpV::Put(
                "/registry/_restore/epoch"@,
                encode_utf8(signed_decimal(epoch as int)),
            ),
{
    assert(r.deep_view().len() == r.len());
    reveal_strlit("/registry/_restore/status");
    reveal_strlit("/registry/_restore/epoch");
    assert("/registry/_restore/status"@.len() != "/registry/_restore/epoch"@.len());
    if succeeded {
        assert(r.deep_view()[0] == StoreOpV::Put(
            "/registry/_restore/epoch"@,
            encode_utf8(signed_decimal(epoch as int)),
        ));
    }
}

/// The status of the last backup is what was stored; without one there was no
/// backup, and what cannot be read is unknown.
pub proof fn law_backup_status_is_what_was_stored(
    stored: bool,
    read: Option<BackupStatus>,
    r: BackupStatus,
)
    requires
        call_ensures(backup_status, (stored, read), r),
    ensures
        !stored ==> r.status@ == "no_backup"@,
        stored && read is None ==> r.status@ == "unknown"@,
        stored && read is Some ==> r.deep_view() == read->0.deep_view(),
        !stored || read is None ==> r.last_backup_at is None && r.last_backup_file is None
            && r.key_count is None,
{
}

/// A backup that was compressed is the same again once it is decompressed.
pub proof fn law_compression_is_undone(
    json: Vec<u8>,
    packed: Result<Vec<u8>, String>,
    r: Result<Vec<u8>, String>,
)
    requires
        call_ensures(compress_backup, (&json,), packed),
        packed is Ok,
        call_ensures(decompress_backup, (&packed->Ok_0,), r),
    ensures
        r is Ok,
        r->Ok_0@ == json@,
{
}

/// A restore that went well is answered with 200, any other with 500 and the reason; a
/// backup that failed with 500.
pub proof fn law_restore_is_answered(
    result: Result<usize, &str>,
    created_at: i128,
    error: &str,
    r: Reply,
    f: Reply,
)
    requires
        call_ensures(restore_reply, (result, created_at), r),
        call_ensures(backup_failed, (error,), f),
    ensures
        result is Ok ==> r.status == 200,
        result is Err ==> r.status == 500,
        f.status == 500,
{
    assert(r.deep_view().status == r.status);
    assert(f.deep_view().status == f.status);
}

/// A restore that went well says so, with the number of keys that it brought back and the
/// time of the backup.
pub proof fn law_restore_tells_the_keys(n: usize, created_at: i128, r: Reply)
    requires
        call_ensures(restore_reply, (Ok(n), created_at), r),
    ensures
        json_in(encode_utf8(r.body@)) matches Some(v) && crate::json::text_field(v, "status"@) == Some(
            "completed"@,
        ) && crate::json::field(v, "imported"@) == Some(JsonV::UInt(n as u64)) && crate::json::text_field(
            v,
            "backup_created_at"@,
        ) == Some(json_time(created_at)),
{
    reveal_strlit("status");
    reveal_strlit("imported");
    reveal_strlit("backup_created_at");
    assert("status"@.len() == 6 && "imported"@.len() == 8 && "backup_created_at"@.len() == 17);
}

/// A backup that went well is remembered as such, with its time, its file and the number
/// of its keys.
pub proof fn law_success_is_remembered(at: i128, file: &str, key_count: usize, r: BackupStatus)
    requires
        call_ensures(backup_success, (at, file, key_count), r),
    ensures
        r.status@ == "success"@,
        r.last_backup_at == Some(at),
        r.last_backup_file.deep_view() == Some(file@),
        r.key_count == Some(key_count),
{
    assert(r.deep_view().status == r.status@);
    assert(r.deep_view().last_backup_file == r.last_backup_file.deep_view());
}

/// The name of a backup file holds its time, and ends as those that are rotated away.
pub proof fn law_backup_files_are_named(now: i128, stamp: String, r: String)
    requires
        call_ensures(backup_filename, (now,), r),
        call_ensures(crate::time::dashed_stamp, (now,), stamp),
    ensures
        r@ == "backup-"@ + stamp@ + ".k3rs-backup.json.gz"@,
        crate::text::has_suffix(r@, ".k3rs-backup.json.gz"@),
{
    let end = ".k3rs-backup.json.gz"@;
    assert(r@.subrange(r@.len() - end.len(), r@.len() as int) =~= end);
}

} // verus!
