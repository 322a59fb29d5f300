//! In-process container state tracking.
use vstd::prelude::*;
use vstd::string::*;
#[allow(unused_imports)]
use crate::collections::lists;
use crate::text::cat;
use crate::time::now;
#[allow(unused_imports)]
use crate::time::valid_time;

verus! {

/// Container lifecycle states.
#[derive(Debug, PartialEq, Eq)]
pub enum ContainerState {
    /// Container has been created but not yet started.
    Created,
    /// Container is actively running.
    Running,
    /// Container stopped normally.
    Stopped,
    /// Container failed with an error message.
    Failed(String),
}

/// The contents of a [`ContainerState`].
pub enum ContainerStateV {
    Created,
    Running,
    Stopped,
    Failed(Seq<char>),
}

impl DeepView for ContainerState {
    type V = ContainerStateV;

    open spec fn deep_view(&self) -> ContainerStateV {
        match self {
            ContainerState::Created => ContainerStateV::Created,
            ContainerState::Running => ContainerStateV::Running,
            ContainerState::Stopped => ContainerStateV::Stopped,
            ContainerState::Failed(s) => ContainerStateV::Failed(s@),
        }
    }
}

impl Clone for ContainerState {
    fn clone(&self) -> (r: Self)
        ensures
            r.deep_view() == self.deep_view(),
    {
        match self {
            ContainerState::Created => ContainerState::Created,
            ContainerState::Running => ContainerState::Running,
            ContainerState::Stopped => ContainerState::Stopped,
            ContainerState::Failed(s) => ContainerState::Failed(s.clone()),
        }
    }
}

/// The text of a state.
pub open spec fn state_text(s: ContainerStateV) -> Seq<char> {
    match s {
        ContainerStateV::Created => "created"@,
        ContainerStateV::Running => "running"@,
        ContainerStateV::Stopped => "stopped"@,
        ContainerStateV::Failed(reason) => "failed: "@ + reason,
    }
}

impl ContainerState {
    /// The text of a state.
    pub fn describe(&self) -> (r: String)
        ensures
            r@ == state_text(self.deep_view()),
    {
        match self {
            ContainerState::Created => "created".to_owned(),
            ContainerState::Running => "running".to_owned(),
            ContainerState::Stopped => "stopped".to_owned(),
            ContainerState::Failed(reason) => cat("failed: ", reason.as_str()),
        }
    }
}

/// Tracked metadata for a single container.
#[derive(Debug)]
pub struct ContainerEntry {
    /// Container ID (matches OCI container ID).
    pub id: String,
    /// OCI image reference used to create this container.
    pub image: String,
    /// Backend name used for this container.
    pub runtime_name: String,
    /// Current lifecycle state.
    pub state: ContainerState,
    /// Container PID (from the OCI runtime), if running.
    pub pid: Option<u32>,
    /// Exit code, if the container has stopped.
    pub exit_code: Option<i32>,
    /// Path to the container's stdout/stderr log file.
    pub log_path: String,
    /// Path to the OCI bundle directory.
    pub bundle_path: String,
    /// When the container entry was created.
    pub created_at: i128,
    /// When the container was started.
    pub started_at: Option<i128>,
    /// When the container finished.
    pub finished_at: Option<i128>,
}

/// The contents of a [`ContainerEntry`].
#[verifier::ext_equal]
pub struct ContainerEntryV {
    pub id: Seq<char>,
    pub image: Seq<char>,
    pub runtime_name: Seq<char>,
    pub state: ContainerStateV,
    pub pid: Option<u32>,
    pub exit_code: Option<i32>,
    pub log_path: Seq<char>,
    pub bundle_path: Seq<char>,
    pub created_at: i128,
    pub started_at: Option<i128>,
    pub finished_at: Option<i128>,
}

impl DeepView for ContainerEntry {
    type V = ContainerEntryV;

    open spec fn deep_view(&self) -> ContainerEntryV {
        ContainerEntryV {
            id: self.id@,
            image: self.image@,
            runtime_name: self.runtime_name@,
            state: self.state.deep_view(),
            pid: self.pid,
            exit_code: self.exit_code,
            log_path: self.log_path@,
            bundle_path: self.bundle_path@,
            created_at: self.created_at,
            started_at: self.started_at,
            finished_at: self.finished_at,
        }
    }
}

impl Clone for ContainerEntry {
    fn clone(&self) -> (r: Self)
        ensures
            r.deep_view() == self.deep_view(),
    {
        ContainerEntry {
            id: self.id.clone(),
            image: self.image.clone(),
            runtime_name: self.runtime_name.clone(),
            state: self.state.clone(),
            pid: self.pid,
            exit_code: self.exit_code,
            log_path: self.log_path.clone(),
            bundle_path: self.bundle_path.clone(),
            created_at: self.created_at,
            started_at: self.started_at,
            finished_at: self.finished_at,
        }
    }
}

/// A fresh entry.
pub open spec fn new_entry(
    id: Seq<char>,
    image: Seq<char>,
    runtime_name: Seq<char>,
    bundle_path: Seq<char>,
    log_path: Seq<char>,
    now: i128,
) -> ContainerEntryV {
    ContainerEntryV {
        id,
        image,
        runtime_name,
        state: ContainerStateV::Created,
        pid: None,
        exit_code: None,
        log_path,
        bundle_path,
        created_at: now,
        started_at: None,
        finished_at: None,
    }
}

/// An entry after a change of state: a start and an end leave their time.
pub open spec fn moved(e: ContainerEntryV, state: ContainerStateV, now: i128) -> ContainerEntryV {
    ContainerEntryV {
        state,
        started_at: if state is Running {
            Some(now)
        } else {
            e.started_at
        },
        finished_at: if state is Stopped || state is Failed {
            Some(now)
        } else {
            e.finished_at
        },
        ..e
    }
}

/// The containers after one of them, if it is there, has moved to a state.
pub open spec fn after_move(
    m: Map<Seq<char>, ContainerEntryV>,
    id: Seq<char>,
    state: ContainerStateV,
    now: i128,
) -> Map<Seq<char>, ContainerEntryV> {
    if m.contains_key(id) {
        m.insert(id, moved(m[id], state, now))
    } else {
        m
    }
}

/// The containers after the process id of one of them, if it is there, is known.
pub open spec fn after_pid(
    m: Map<Seq<char>, ContainerEntryV>,
    id: Seq<char>,
    pid: u32,
) -> Map<Seq<char>, ContainerEntryV> {
    if m.contains_key(id) {
        m.insert(id, ContainerEntryV { pid: Some(pid), ..m[id] })
    } else {
        m
    }
}

/// The containers after the exit code of one of them, if it is there, is known.
pub open spec fn after_exit(
    m: Map<Seq<char>, ContainerEntryV>,
    id: Seq<char>,
    code: i32,
) -> Map<Seq<char>, ContainerEntryV> {
    if m.contains_key(id) {
        m.insert(id, ContainerEntryV { exit_code: Some(code), ..m[id] })
    } else {
        m
    }
}

// ---------------------------------------------------------------------------
// The concurrent map, by dashmap
// ---------------------------------------------------------------------------

/// dashmap's concurrent hash map.
#[verifier::external_type_specification]
#[verifier::external_body]
#[verifier::reject_recursive_types(K)]
#[verifier::reject_recursive_types(V)]
#[verifier::reject_recursive_types(S)]
pub struct ExDashMap<K, V, S>(dashmap::DashMap<K, V, S>);

/// The entries of the map, by key.
pub uninterp spec fn contents(m: dashmap::DashMap<String, ContainerEntry>) -> Map<
    Seq<char>,
    ContainerEntryV,
>;

/// The map without entries.
pub open spec fn no_entries() -> Map<Seq<char>, ContainerEntryV> {
    Map::empty()
}

/// Whether a map has a given number of entries.
pub open spec fn has_size(m: Map<Seq<char>, ContainerEntryV>, n: int) -> bool {
    m.dom().finite() && m.dom().len() == n
}

/// The values of a list of pairs.
pub open spec fn values_of(order: Seq<(Seq<char>, ContainerEntryV)>) -> Seq<ContainerEntryV> {
    Seq::new(order.len(), |i: int| order[i].1)
}

/// Whether a list holds the value of each key of a map once, in some order.
pub open spec fn enumerates(
    values: Seq<ContainerEntryV>,
    m: Map<Seq<char>, ContainerEntryV>,
) -> bool {
    exists|order: Seq<(Seq<char>, ContainerEntryV)>| #[trigger]
        lists(order, m) && values == values_of(order)
}

/// An empty map, by `DashMap::new`.
#[verifier::external_body]
fn map_new() -> (r: dashmap::DashMap<String, ContainerEntry>)
    ensures
        contents(r) == no_entries(),
{
    dashmap::DashMap::new()
}

/// Sets the entry of a key, by `DashMap::insert`: others stay as they are.
#[verifier::external_body]
fn map_insert(m: &mut dashmap::DashMap<String, ContainerEntry>, key: String, entry: ContainerEntry)
    ensures
        contents(*final(m)) == contents(*old(m)).insert(key@, entry.deep_view()),
{
    m.insert(key, entry);
}

/// A copy of the entry of a key, by `DashMap::get`.
#[verifier::external_body]
fn map_get(m: &dashmap::DashMap<String, ContainerEntry>, key: &str) -> (r: Option<ContainerEntry>)
    ensures
        match r {
            Some(e) => contents(*m).contains_key(key@) && e.deep_view() == contents(*m)[key@],
            None => !contents(*m).contains_key(key@),
        },
{
    match m.get(key) {
        Some(e) => Some(e.value().clone()),
        None => None,
    }
}

/// Takes out the entry of a key, by `DashMap::remove`.
#[verifier::external_body]
fn map_remove(m: &mut dashmap::DashMap<String, ContainerEntry>, key: &str) -> (r: Option<
    ContainerEntry,
>)
    ensures
        contents(*final(m)) == contents(*old(m)).remove(key@),
        match r {
            Some(e) => contents(*old(m)).contains_key(key@) && e.deep_view() == contents(
                *old(m),
            )[key@],
            None => !contents(*old(m)).contains_key(key@),
        },
{
    match m.remove(key) {
        Some(e) => Some(e.1),
        None => None,
    }
}

/// The number of entries, by `DashMap::len`.
#[verifier::external_body]
fn map_len(m: &dashmap::DashMap<String, ContainerEntry>) -> (r: usize)
    ensures
        has_size(contents(*m), r as int),
{
    m.len()
}

/// Copies of all entries, by `DashMap::iter`: each once, in an order that is
/// left open.
#[verifier::external_body]
fn map_entries(m: &dashmap::DashMap<String, ContainerEntry>) -> (r: Vec<ContainerEntry>)
    ensures
        enumerates(r.deep_view(), contents(*m)),
{
    m.iter().map(|e| e.value().clone()).collect()
}

/// In-memory container state store.
pub struct ContainerStore {
    containers: dashmap::DashMap<String, ContainerEntry>,
}

impl DeepView for ContainerStore {
    type V = Map<Seq<char>, ContainerEntryV>;

    closed spec fn deep_view(&self) -> Map<Seq<char>, ContainerEntryV> {
        contents(self.containers)
    }
}

impl ContainerStore {
    /// Creates an empty container store.
    pub fn new() -> (r: Self)
        ensures
            r.deep_view() == Map::<Seq<char>, ContainerEntryV>::empty(),
    {
        ContainerStore { containers: map_new() }
    }

    /// Registers a new container at a given time, in place of one with its id.
    pub fn track_at(
        &mut self,
        id: &str,
        image: &str,
        runtime_name: &str,
        bundle_path: &str,
        log_path: &str,
        now: i128,
    )
        ensures
            final(self).deep_view() == old(self).deep_view().insert(
                id@,
                new_entry(id@, image@, runtime_name@, bundle_path@, log_path@, now),
            ),
    {
        let entry: ContainerEntry = ContainerEntry {
            id: id.to_owned(),
            image: image.to_owned(),
            runtime_name: runtime_name.to_owned(),
            state: ContainerState::Created,
            pid: None,
            exit_code: None,
            log_path: log_path.to_owned(),
            bundle_path: bundle_path.to_owned(),
            created_at: now,
            started_at: None,
            finished_at: None,
        };
        map_insert(&mut self.containers, id.to_owned(), entry);
    }

    /// Registers a new container after it was created.
    pub fn track(
        &mut self,
        id: &str,
        image: &str,
        runtime_name: &str,
        bundle_path: &str,
        log_path: &str,
    )
        ensures
            exists|now: i128| #[trigger]
                valid_time(now) && final(self).deep_view() == old(self).deep_view().insert(
                    id@,
                    new_entry(id@, image@, runtime_name@, bundle_path@, log_path@, now),
                ),
    {
        let t: i128 = now();
        self.track_at(id, image, runtime_name, bundle_path, log_path, t);
        assert(valid_time(t));
    }

    /// Updates a container's state at a given time. Returns `false` if the
    /// container is not tracked.
    pub fn update_state_at(&mut self, id: &str, state: ContainerState, now: i128) -> (r: bool)
        ensures
            r == old(self).deep_view().contains_key(id@),
            final(self).deep_view() == after_move(
                old(self).deep_view(),
                id@,
                state.deep_view(),
                now,
            ),
    {
        match map_get(&self.containers, id) {
            Some(e) => {
                let mut entry: ContainerEntry = e;
                match &state {
                    ContainerState::Running => {
                        entry.started_at = Some(now);
                    },
                    ContainerState::Stopped | ContainerState::Failed(_) => {
                        entry.finished_at = Some(now);
                    },
                    ContainerState::Created => {},
                }
                entry.state = state;
                map_insert(&mut self.containers, id.to_owned(), entry);
                true
            },
            None => false,
        }
    }

    /// Updates a container's state. Returns `false` if the container is not tracked.
    pub fn update_state(&mut self, id: &str, state: ContainerState) -> (r: bool)
        ensures
            r == old(self).deep_view().contains_key(id@),
            exists|now: i128| #[trigger]
                valid_time(now) && final(self).deep_view() == after_move(
                    old(self).deep_view(),
                    id@,
                    state.deep_view(),
                    now,
                ),
    {
        let t: i128 = now();
        assert(valid_time(t));
        self.update_state_at(id, state, t)
    }

    /// Sets the PID for a running container.
    pub fn set_pid(&mut self, id: &str, pid: u32)
        ensures
            final(self).deep_view() == after_pid(old(self).deep_view(), id@, pid),
    {
        match map_get(&self.containers, id) {
            Some(e) => {
                let mut entry: ContainerEntry = e;
                entry.pid = Some(pid);
                map_insert(&mut self.containers, id.to_owned(), entry);
            },
            None => {},
        }
    }

    /// Sets the exit code for a stopped container.
    pub fn set_exit_code(&mut self, id: &str, code: i32)
        ensures
            final(self).deep_view() == after_exit(old(self).deep_view(), id@, code),
    {
        match map_get(&self.containers, id) {
            Some(e) => {
                let mut entry: ContainerEntry = e;
                entry.exit_code = Some(code);
                map_insert(&mut self.containers, id.to_owned(), entry);
            },
            None => {},
        }
    }

    /// Gets a snapshot of a container's entry.
    pub fn get(&self, id: &str) -> (r: Option<ContainerEntry>)
        ensures
            r.deep_view() == if self.deep_view().contains_key(id@) {
                Some(self.deep_view()[id@])
            } else {
                None
            },
    {
        map_get(&self.containers, id)
    }

    /// Lists all tracked containers, in some order.
    pub fn list(&self) -> (r: Vec<ContainerEntry>)
        ensures
            enumerates(r.deep_view(), self.deep_view()),
    {
        map_entries(&self.containers)
    }

    /// Removes a container from tracking.
    pub fn remove(&mut self, id: &str) -> (r: Option<ContainerEntry>)
        ensures
            final(self).deep_view() == old(self).deep_view().remove(id@),
            r.deep_view() == if old(self).deep_view().contains_key(id@) {
                Some(old(self).deep_view()[id@])
            } else {
                None
            },
    {
        map_remove(&mut self.containers, id)
    }

    /// Number of tracked containers.
    pub fn len(&self) -> (r: usize)
        ensures
            has_size(self.deep_view(), r as int),
    {
        map_len(&self.containers)
    }

    /// Whether the store is empty.
    pub fn is_empty(&self) -> (r: bool)
        ensures
            r == (self.deep_view() =~= Map::<Seq<char>, ContainerEntryV>::empty()),
    {
        let n: usize = self.len();
        proof {
            if n == 0 {
                assert(self.deep_view().dom() =~= Set::empty());
            } else {
                assert(!(self.deep_view() =~= Map::<Seq<char>, ContainerEntryV>::empty())) by {
                    if self.deep_view() =~= Map::<Seq<char>, ContainerEntryV>::empty() {
                        assert(self.deep_view().dom() =~= Set::<Seq<char>>::empty());
                    }
                }
            }
        }
        n == 0
    }
}

impl Default for ContainerStore {
    fn default() -> (r: Self)
        ensures
            r.deep_view() == Map::<Seq<char>, ContainerEntryV>::empty(),
    {
        ContainerStore::new()
    }
}

/// Parsed output of a runtime's state query.
#[derive(Debug)]
pub struct ContainerStateInfo {
    /// Container ID.
    pub id: String,
    /// OCI state: "creating", "created", "running", "stopped".
    pub status: String,
    /// Container PID (0 if not running).
    pub pid: u32,
    /// Bundle path.
    pub bundle: String,
}

/// The contents of a [`ContainerStateInfo`].
#[verifier::ext_equal]
pub struct ContainerStateInfoV {
    pub id: Seq<char>,
    pub status: Seq<char>,
    pub pid: u32,
    pub bundle: Seq<char>,
}

impl DeepView for ContainerStateInfo {
    type V = ContainerStateInfoV;

    open spec fn deep_view(&self) -> ContainerStateInfoV {
        ContainerStateInfoV {
            id: self.id@,
            status: self.status@,
            pid: self.pid,
            bundle: self.bundle@,
        }
    }
}

// ---------------------------------------------------------------------------
// Laws
// ---------------------------------------------------------------------------

/// A container that was started and then stopped keeps both times, and moving
/// on never changes what it is.
pub proof fn law_lifecycle_leaves_times(e: ContainerEntryV, started: i128, stopped: i128)
    ensures
        ({
            let r = moved(e, ContainerStateV::Running, started);
            let s = moved(r, ContainerStateV::Stopped, stopped);
            &&& s.state == ContainerStateV::Stopped
            &&& s.started_at == Some(started)
            &&& s.finished_at == Some(stopped)
            &&& s.id == e.id && s.image == e.image && s.created_at == e.created_at
        }),
{
}

/// What is tracked is found, until it is removed; other containers are not touched.
pub proof fn law_track_then_remove(
    m: Map<Seq<char>, ContainerEntryV>,
    id: Seq<char>,
    e: ContainerEntryV,
    other: Seq<char>,
)
    requires
        other != id,
    ensures
        m.insert(id, e).contains_key(id) && m.insert(id, e)[id] == e,
        !m.insert(id, e).remove(id).contains_key(id),
        m.insert(id, e).contains_key(other) == m.contains_key(other),
        m.contains_key(other) ==> m.insert(id, e)[other] == m[other],
{
}

/// A container that comes to run has started at that moment, one that stops or
/// fails has ended at it, and a state change touches nothing else of it, no other
/// container, and nothing at all where the container is not known.
pub proof fn law_states_are_recorded(
    m: Map<Seq<char>, ContainerEntryV>,
    id: Seq<char>,
    state: ContainerStateV,
    now: i128,
    other: Seq<char>,
)
    requires
        other != id,
    ensures
        ({
            let after = after_move(m, id, state, now);
            &&& after.contains_key(id) == m.contains_key(id)
            &&& after.contains_key(other) == m.contains_key(other)
            &&& m.contains_key(other) ==> after[other] == m[other]
            &&& m.contains_key(id) ==> {
                let e = m[id];
                let a = after[id];
                &&& a.state == state
                &&& state == ContainerStateV::Running ==> a.started_at == Some(now)
                    && a.finished_at == e.finished_at
                &&& state == ContainerStateV::Stopped || state is Failed ==> a.finished_at
                    == Some(now) && a.started_at == e.started_at
                &&& state == ContainerStateV::Created ==> a.started_at == e.started_at
                    && a.finished_at == e.finished_at
                &&& a.id == e.id && a.image == e.image && a.runtime_name == e.runtime_name
                &&& a.pid == e.pid && a.exit_code == e.exit_code
                &&& a.log_path == e.log_path && a.bundle_path == e.bundle_path
                &&& a.created_at == e.created_at
            }
        }),
{
}

/// A process id or an exit code is recorded for the container that it is given for,
/// where that is known, and changes nothing else.
pub proof fn law_process_facts_are_recorded(
    m: Map<Seq<char>, ContainerEntryV>,
    id: Seq<char>,
    pid: u32,
    code: i32,
    other: Seq<char>,
)
    requires
        other != id,
        m.contains_key(id),
    ensures
        after_pid(m, id, pid)[id].pid == Some(pid),
        after_pid(m, id, pid)[id].exit_code == m[id].exit_code,
        after_pid(m, id, pid)[id].state == m[id].state,
        after_exit(m, id, code)[id].exit_code == Some(code),
        after_exit(m, id, code)[id].pid == m[id].pid,
        after_exit(m, id, code)[id].state == m[id].state,
        after_pid(m, id, pid).dom() == m.dom(),
        after_exit(m, id, code).dom() == m.dom(),
        m.contains_key(other) ==> after_pid(m, id, pid)[other] == m[other] && after_exit(
            m,
            id,
            code,
        )[other] == m[other],
        !m.contains_key(other) ==> after_pid(m, other, pid) == m && after_exit(m, other, code) == m,
{
    assert(after_pid(m, id, pid).dom() =~= m.dom());
    assert(after_exit(m, id, code).dom() =~= m.dom());
}

/// A container that is tracked anew is created, and has neither started nor ended.
pub proof fn law_tracked_is_created(
    id: Seq<char>,
    image: Seq<char>,
    runtime_name: Seq<char>,
    bundle_path: Seq<char>,
    log_path: Seq<char>,
    now: i128,
)
    ensures
        ({
            let e = new_entry(id, image, runtime_name, bundle_path, log_path, now);
            &&& e.id == id && e.image == image && e.runtime_name == runtime_name
            &&& e.bundle_path == bundle_path && e.log_path == log_path
            &&& e.state == ContainerStateV::Created
            &&& e.pid is None && e.exit_code is None
            &&& e.created_at == now && e.started_at is None && e.finished_at is None
        }),
{
}

/// Each state has its own word, and a failure says its reason.
pub proof fn law_states_have_words(s: ContainerState, r: String)
    requires
        call_ensures(ContainerState::describe, (&s,), r),
    ensures
        s is Created ==> r@ == "created"@,
        s is Running ==> r@ == "running"@,
        s is Stopped ==> r@ == "stopped"@,
        s matches ContainerState::Failed(reason) ==> r@ == "failed: "@ + reason@,
{
}

/// A container that is tracked is known from then on, with what it was tracked with;
/// other containers are not touched.
pub proof fn law_tracking_adds_one(
    s: &mut ContainerStore,
    id: &str,
    image: &str,
    runtime_name: &str,
    bundle_path: &str,
    log_path: &str,
    now: i128,
    other: Seq<char>,
)
    requires
        call_ensures(
            ContainerStore::track_at,
            (s, id, image, runtime_name, bundle_path, log_path, now),
            (),
        ),
        other != id@,
    ensures
        final(s).deep_view().contains_key(id@),
        final(s).deep_view()[id@].image == image@,
        final(s).deep_view()[id@].state == ContainerStateV::Created,
        final(s).deep_view()[id@].created_at == now,
        final(s).deep_view()[id@].started_at is None,
        final(s).deep_view()[id@].finished_at is None,
        final(s).deep_view().contains_key(other) == old(s).deep_view().contains_key(other),
        old(s).deep_view().contains_key(other) ==> final(s).deep_view()[other] == old(s).deep_view()[other],
{
}

/// The state of a known container changes to the given one, with its moment; of an
/// unknown one nothing changes, and the caller is told so.
pub proof fn law_updates_reach_one(
    s: &mut ContainerStore,
    id: &str,
    state: ContainerState,
    now: i128,
    r: bool,
    other: Seq<char>,
)
    requires
        call_ensures(ContainerStore::update_state_at, (s, id, state, now), r),
        other != id@,
    ensures
        r <==> old(s).deep_view().contains_key(id@),
        r ==> final(s).deep_view()[id@].state == state.deep_view(),
        r && state is Running ==> final(s).deep_view()[id@].started_at == Some(now),
        r && (state is Stopped || state is Failed) ==> final(s).deep_view()[id@].finished_at
            == Some(now),
        r && !(state is Running) ==> final(s).deep_view()[id@].started_at == old(s).deep_view()[id@].started_at,
        r && (state is Running || state is Created) ==> final(s).deep_view()[id@].finished_at
            == old(s).deep_view()[id@].finished_at,
        !r ==> final(s).deep_view() == old(s).deep_view(),
        old(s).deep_view().contains_key(other) ==> final(s).deep_view()[other] == old(s).deep_view()[other],
        final(s).deep_view().dom() == old(s).deep_view().dom(),
{
    assert(final(s).deep_view().dom() =~= old(s).deep_view().dom());
}

/// A process id and an exit code are kept for the container that they are given for.
pub proof fn law_process_facts_are_kept(
    p: &mut ContainerStore,
    c: &mut ContainerStore,
    id: &str,
    pid: u32,
    code: i32,
)
    requires
        call_ensures(ContainerStore::set_pid, (p, id, pid), ()),
        call_ensures(ContainerStore::set_exit_code, (c, id, code), ()),
        p.deep_view().contains_key(id@),
        c.deep_view().contains_key(id@),
    ensures
        final(p).deep_view()[id@].pid == Some(pid),
        final(p).deep_view()[id@].exit_code == old(p).deep_view()[id@].exit_code,
        final(c).deep_view()[id@].exit_code == Some(code),
        final(c).deep_view()[id@].pid == old(c).deep_view()[id@].pid,
        final(p).deep_view()[id@].state == old(p).deep_view()[id@].state,
        final(c).deep_view()[id@].state == old(c).deep_view()[id@].state,
{
}

/// What is removed was known, is handed back and is not known any more.
pub proof fn law_removal_takes_one(
    s: &mut ContainerStore,
    id: &str,
    r: Option<ContainerEntry>,
    other: Seq<char>,
)
    requires
        call_ensures(ContainerStore::remove, (s, id), r),
        other != id@,
    ensures
        r is Some <==> old(s).deep_view().contains_key(id@),
        r matches Some(e) ==> e.deep_view() == old(s).deep_view()[id@],
        !final(s).deep_view().contains_key(id@),
        final(s).deep_view().contains_key(other) == old(s).deep_view().contains_key(other),
        old(s).deep_view().contains_key(other) ==> final(s).deep_view()[other] == old(s).deep_view()[other],
{
}

/// A store is empty exactly where it counts no container, and one that gives a container
/// is not.
pub proof fn law_empty_store_holds_nothing(
    s: ContainerStore,
    id: &str,
    n: usize,
    e: bool,
    g: Option<ContainerEntry>,
)
    requires
        call_ensures(ContainerStore::len, (&s,), n),
        call_ensures(ContainerStore::is_empty, (&s,), e),
        call_ensures(ContainerStore::get, (&s, id), g),
    ensures
        e <==> n == 0,
        g is Some ==> n > 0,
        e ==> g is None,
{
    let m = s.deep_view();
    if n == 0 {
        assert(m.dom() =~= Set::empty());
        assert(m =~= Map::<Seq<char>, ContainerEntryV>::empty());
    }
    if e {
        assert(m.dom() =~= Set::<Seq<char>>::empty());
    }
}

} // verus!
