//! The container runtime: which backend it uses and what it keeps of its
//! containers.
use vstd::prelude::*;
use vstd::string::*;
use crate::collections::lemma_filter_map_step;
#[allow(unused_imports)]
use crate::collections::lemma_filter_map_has;
use crate::container::image::ImageManager;
use crate::container::state::{ContainerState, ContainerStateInfo, ContainerStore};
#[allow(unused_imports)]
use crate::container::state::{
    after_move,
    moved,
    new_entry,
    ContainerEntryV,
    ContainerStateInfoV,
    ContainerStateV,
};
use crate::keys::join_path;
#[allow(unused_imports)]
use crate::keys::path_join;
use crate::text::{cat, cat4, str_eq};
use crate::time::now;
#[allow(unused_imports)]
use crate::time::valid_time;

verus! {

/// Which backend a pod is using.
#[derive(Debug)]
pub struct RuntimeInfo {
    /// Name of the backend.
    pub backend: String,
    /// Its version.
    pub version: String,
    /// Its path; empty where it is not known.
    pub path: String,
}

/// A way to come to a backend.
#[derive(Debug, Clone, Copy, PartialEq, Eq, Structural)]
pub enum Attempt {
    /// Apple's Virtualization.framework.
    Virtualization,
    /// An OCI runtime that is installed.
    Oci,
    /// An OCI runtime that is downloaded.
    Download,
}

/// What is tried first: micro-VMs on macOS, an OCI runtime elsewhere.
pub open spec fn first_attempt_on(macos: bool) -> Attempt {
    if macos {
        Attempt::Virtualization
    } else {
        Attempt::Oci
    }
}

/// What follows an attempt that has failed: another one, or what is said.
pub open spec fn after(
    macos: bool,
    attempt: Attempt,
    earlier: Seq<char>,
    error: Seq<char>,
) -> Result<Attempt, Seq<char>> {
    match attempt {
        Attempt::Virtualization => Ok(Attempt::Oci),
        Attempt::Oci => if macos {
            Err(
                "No container runtime available. Virtualization.framework: "@ + earlier + ". OCI: "@
                    + error,
            )
        } else {
            Ok(Attempt::Download)
        },
        Attempt::Download => Err(
            "No container runtime available. OCI auto-download failed: "@ + error,
        ),
    }
}

/// Decides what is tried first.
pub fn first_attempt(macos: bool) -> (r: Attempt)
    ensures
        r == first_attempt_on(macos),
{
    if macos {
        Attempt::Virtualization
    } else {
        Attempt::Oci
    }
}

/// Decides what follows an attempt that has failed; `earlier` is what the
/// attempt before it has said.
pub fn after_failure(macos: bool, attempt: Attempt, earlier: &str, error: &str) -> (r: Result<
    Attempt,
    String,
>)
    ensures
        match r {
            Ok(a) => after(macos, attempt, earlier@, error@) == Ok::<Attempt, Seq<char>>(a),
            Err(e) => after(macos, attempt, earlier@, error@) == Err::<Attempt, Seq<char>>(e@),
        },
{
    match attempt {
        Attempt::Virtualization => Ok(Attempt::Oci),
        Attempt::Oci => if macos {
            Err(
                cat4(
                    "No container runtime available. Virtualization.framework: ",
                    earlier,
                    ". OCI: ",
                    error,
                ),
            )
        } else {
            Ok(Attempt::Download)
        },
        Attempt::Download => Err(
            cat("No container runtime available. OCI auto-download failed: ", error),
        ),
    }
}

/// The container runtime. Container state is kept in process.
pub struct ContainerRuntime {
    /// Name of the backend.
    pub backend: String,
    /// Version of the backend.
    pub version: String,
    /// Whether the backend gets images by itself.
    pub handles_images: bool,
    /// The cache of images.
    pub image_manager: ImageManager,
    /// Directory for runtime data.
    pub data_dir: String,
    /// What is known of the containers.
    pub store: ContainerStore,
}

/// Whether two runtimes are set up alike: they may differ in what they know of
/// containers alone.
pub open spec fn same_setup(a: ContainerRuntime, b: ContainerRuntime) -> bool {
    &&& a.backend@ == b.backend@
    &&& a.version@ == b.version@
    &&& a.handles_images == b.handles_images
    &&& a.image_manager.images_dir@ == b.image_manager.images_dir@
    &&& a.data_dir@ == b.data_dir@
}

/// The directory of a container.
pub open spec fn container_dir_of(data_dir: Seq<char>, id: Seq<char>) -> Seq<char> {
    path_join(path_join(data_dir, "containers"@), id)
}

/// The log of a container.
pub open spec fn log_path_of(data_dir: Seq<char>, id: Seq<char>) -> Seq<char> {
    path_join(path_join(path_join(data_dir, "logs"@), id), "stdout.log"@)
}

/// Whether a container that the backend reports is taken up.
pub open spec fn is_up(info: ContainerStateInfoV) -> bool {
    info.status == "running"@ || info.status == "created"@
}

/// What is kept of a container that the backend reports.
pub open spec fn recovered_entry(
    data_dir: Seq<char>,
    backend: Seq<char>,
    id: Seq<char>,
    info: ContainerStateInfoV,
    now: i128,
) -> ContainerEntryV {
    let e = new_entry(id, "recovered"@, backend, info.bundle, log_path_of(data_dir, id), now);
    if info.status == "running"@ {
        let m = moved(e, ContainerStateV::Running, now);
        if info.pid > 0 {
            ContainerEntryV { pid: Some(info.pid), ..m }
        } else {
            m
        }
    } else {
        e
    }
}

/// What is kept after a look at what the backend reports.
pub open spec fn with_discovered(
    data_dir: Seq<char>,
    backend: Seq<char>,
    store: Map<Seq<char>, ContainerEntryV>,
    found: Seq<(Seq<char>, Option<ContainerStateInfoV>)>,
    now: i128,
) -> Map<Seq<char>, ContainerEntryV>
    decreases found.len(),
{
    if found.len() == 0 {
        store
    } else {
        let m = with_discovered(data_dir, backend, store, found.drop_last(), now);
        let e = found.last();
        match e.1 {
            Some(info) => if is_up(info) {
                m.insert(e.0, recovered_entry(data_dir, backend, e.0, info, now))
            } else {
                m
            },
            None => m,
        }
    }
}

/// The container if the backend reports it as up.
pub open spec fn up_rule() -> spec_fn((Seq<char>, Option<ContainerStateInfoV>)) -> Option<
    Seq<char>,
> {
    |e: (Seq<char>, Option<ContainerStateInfoV>)|
        match e.1 {
            Some(info) => if is_up(info) {
                Some(e.0)
            } else {
                None
            },
            None => None,
        }
}

impl ContainerRuntime {
    /// The data directory: the given one, else the default.
    pub fn data_dir_or_default(data_dir: Option<&str>) -> (r: String)
        ensures
            r@ == match data_dir {
                Some(d) => d@,
                None => "/tmp/k3rs-runtime"@,
            },
    {
        match data_dir {
            Some(d) => d.to_owned(),
            None => "/tmp/k3rs-runtime".to_owned(),
        }
    }

    /// The runtime over a backend.
    pub fn new(data_dir: Option<&str>, backend: &str, version: &str, handles_images: bool) -> (r:
        Self)
        ensures
            r.backend@ == backend@,
            r.version@ == version@,
            r.handles_images == handles_images,
            r.data_dir@ == match data_dir {
                Some(d) => d@,
                None => "/tmp/k3rs-runtime"@,
            },
            r.image_manager.images_dir@ == path_join(r.data_dir@, "images"@),
            r.store.deep_view() == Map::<Seq<char>, ContainerEntryV>::empty(),
    {
        let dir: String = Self::data_dir_or_default(data_dir);
        ContainerRuntime {
            backend: backend.to_owned(),
            version: version.to_owned(),
            handles_images,
            image_manager: ImageManager::new(dir.as_str()),
            data_dir: dir,
            store: ContainerStore::new(),
        }
    }

    /// The name of the active runtime backend.
    pub fn backend_name(&self) -> (r: &str)
        ensures
            r@ == self.backend@,
    {
        self.backend.as_str()
    }

    /// Full runtime info for pod tracking.
    pub fn runtime_info(&self) -> (r: RuntimeInfo)
        ensures
            r.backend@ == self.backend@,
            r.version@ == self.version@,
            r.path@ == Seq::<char>::empty(),
    {
        RuntimeInfo {
            backend: self.backend.clone(),
            version: self.version.clone(),
            path: String::new(),
        }
    }

    /// The container state store.
    pub fn container_store(&self) -> (r: &ContainerStore)
        ensures
            r.deep_view() == self.store.deep_view(),
    {
        &self.store
    }

    /// The directory of a container.
    pub fn container_dir(&self, id: &str) -> (r: String)
        ensures
            r@ == container_dir_of(self.data_dir@, id@),
    {
        join_path(join_path(self.data_dir.as_str(), "containers").as_str(), id)
    }

    /// The log of a container.
    pub fn log_path(&self, id: &str) -> (r: String)
        ensures
            r@ == log_path_of(self.data_dir@, id@),
    {
        join_path(
            join_path(join_path(self.data_dir.as_str(), "logs").as_str(), id).as_str(),
            "stdout.log",
        )
    }

    /// Keeps a container that the backend has created.
    pub fn created_at(&mut self, id: &str, image: &str, now: i128)
        ensures
            final(self).store.deep_view() == old(self).store.deep_view().insert(
                id@,
                new_entry(
                    id@,
                    image@,
                    old(self).backend@,
                    container_dir_of(old(self).data_dir@, id@),
                    log_path_of(old(self).data_dir@, id@),
                    now,
                ),
            ),
            same_setup(*final(self), *old(self)),
    {
        let dir: String = self.container_dir(id);
        let log: String = self.log_path(id);
        let backend: String = self.backend.clone();
        self.store.track_at(id, image, backend.as_str(), dir.as_str(), log.as_str(), now);
    }

    /// Records that the backend has started a container.
    pub fn started_at(&mut self, id: &str, now: i128)
        ensures
            final(self).store.deep_view() == after_move(
                old(self).store.deep_view(),
                id@,
                ContainerStateV::Running,
                now,
            ),
            same_setup(*final(self), *old(self)),
    {
        let _known: bool = self.store.update_state_at(id, ContainerState::Running, now);
    }

    /// Records that the backend has stopped and deleted a container.
    pub fn stopped_at(&mut self, id: &str, now: i128)
        ensures
            final(self).store.deep_view() == after_move(
                old(self).store.deep_view(),
                id@,
                ContainerStateV::Stopped,
                now,
            ),
            same_setup(*final(self), *old(self)),
    {
        let _known: bool = self.store.update_state_at(id, ContainerState::Stopped, now);
    }

    /// Marks a container as failed, now.
    pub fn mark_failed(&mut self, id: &str, reason: &str)
        ensures
            same_setup(*final(self), *old(self)),
            exists|now: i128| #[trigger]
                valid_time(now) && final(self).store.deep_view() == after_move(
                    old(self).store.deep_view(),
                    id@,
                    ContainerStateV::Failed(reason@),
                    now,
                ),
    {
        let t: i128 = now();
        let _known: bool = self.store.update_state_at(
            id,
            ContainerState::Failed(reason.to_owned()),
            t,
        );
        assert(valid_time(t));
    }

    /// Takes up the containers that the backend reports as running or created,
    /// and names them. A container whose state could not be had is passed over.
    pub fn discover_at(
        &mut self,
        found: &Vec<(String, Option<ContainerStateInfo>)>,
        now: i128,
    ) -> (r: Vec<String>)
        ensures
            r.deep_view() == found.deep_view().filter_map(up_rule()),
            final(self).store.deep_view() == with_discovered(
                old(self).data_dir@,
                old(self).backend@,
                old(self).store.deep_view(),
                found.deep_view(),
                now,
            ),
            same_setup(*final(self), *old(self)),
    {
        let ghost all = found.deep_view();
        let ghost start = self.store.deep_view();
        let mut out: Vec<String> = Vec::new();
        let mut i: usize = 0;
        proof {
            assert(all.take(0) =~= Seq::<(Seq<char>, Option<ContainerStateInfoV>)>::empty());
            reveal(Seq::filter_map);
            assert(out.deep_view() =~= all.take(0).filter_map(up_rule()));
        }
        while i < found.len()
            invariant
                i <= found@.len(),
                all == found.deep_view(),
                start == old(self).store.deep_view(),
                same_setup(*self, *old(self)),
                out.deep_view() == all.take(i as int).filter_map(up_rule()),
                self.store.deep_view() == with_discovered(
                    self.data_dir@,
                    self.backend@,
                    start,
                    all.take(i as int),
                    now,
                ),
            decreases found@.len() - i,
        {
            let ghost o = out.deep_view();
            let ghost m = self.store.deep_view();
            proof {
                lemma_filter_map_step(all, up_rule(), i as int);
                assert(all.take(i + 1).drop_last() =~= all.take(i as int));
                assert(all[i as int] == (found@[i as int].0@, found@[i as int].1.deep_view()));
                assert(all.take(i + 1).last() == all[i as int]);
            }
            let id: &str = found[i].0.as_str();
            if let Some(info) = &found[i].1 {
                let running: bool = str_eq(info.status.as_str(), "running");
                if running || str_eq(info.status.as_str(), "created") {
                    let log: String = self.log_path(id);
                    let backend: String = self.backend.clone();
                    self.store.track_at(
                        id,
                        "recovered",
                        backend.as_str(),
                        info.bundle.as_str(),
                        log.as_str(),
                        now,
                    );
                    if running {
                        let _known: bool = self.store.update_state_at(
                            id,
                            ContainerState::Running,
                            now,
                        );
                        if info.pid > 0 {
                            self.store.set_pid(id, info.pid);
                        }
                    }
                    out.push(found[i].0.clone());
                    proof {
                        assert(out.deep_view() =~= o.push(id@));
                        assert(self.store.deep_view() =~= m.insert(
                            id@,
                            recovered_entry(
                                self.data_dir@,
                                self.backend@,
                                id@,
                                info.deep_view(),
                                now,
                            ),
                        ));
                    }
                }
            }
            i = i + 1;
        }
        assert(all.take(i as int) =~= all);
        out
    }

    /// Forgets a container and gives the directory to remove.
    pub fn cleanup_container(&mut self, id: &str) -> (r: String)
        ensures
            r@ == container_dir_of(old(self).data_dir@, id@),
            final(self).store.deep_view() == old(self).store.deep_view().remove(id@),
            same_setup(*final(self), *old(self)),
    {
        let _entry: Option<crate::container::state::ContainerEntry> = self.store.remove(id);
        self.container_dir(id)
    }
}

/// Every container that the backend reports as up is tracked afterwards, in the
/// state that was reported.
pub proof fn law_discovered_is_tracked(
    data_dir: Seq<char>,
    backend: Seq<char>,
    store: Map<Seq<char>, ContainerEntryV>,
    found: Seq<(Seq<char>, Option<ContainerStateInfoV>)>,
    now: i128,
    i: int,
)
    requires
        0 <= i < found.len(),
        found[i].1 is Some,
        is_up(found[i].1->0),
        forall|j: int| i < j < found.len() ==> (#[trigger] found[j]).0 != found[i].0,
    ensures
        with_discovered(data_dir, backend, store, found, now).contains_key(found[i].0),
        with_discovered(data_dir, backend, store, found, now)[found[i].0] == recovered_entry(
            data_dir,
            backend,
            found[i].0,
            found[i].1->0,
            now,
        ),
        (recovered_entry(data_dir, backend, found[i].0, found[i].1->0, now).state
            == ContainerStateV::Running) == (found[i].1->0.status == "running"@),
    decreases found.len(),
{
    if i < found.len() - 1 {
        let t = found.drop_last();
        assert(t[i] == found[i]);
        assert forall|j: int| i < j < t.len() implies (#[trigger] t[j]).0 != t[i].0 by {
            assert(t[j] == found[j]);
        }
        law_discovered_is_tracked(data_dir, backend, store, t, now, i);
        assert(found[found.len() - 1].0 != found[i].0);
    }
}

/// One other attempt follows the first if that fails, and none follows the
/// second.
pub proof fn law_attempts_end(
    macos: bool,
    nothing: Seq<char>,
    first_error: Seq<char>,
    second_error: Seq<char>,
)
    ensures
        match after(macos, first_attempt_on(macos), nothing, first_error) {
            Ok(second) => second != first_attempt_on(macos) && after(
                macos,
                second,
                first_error,
                second_error,
            ) is Err,
            Err(_) => false,
        },
{
}

/// On macOS virtual machines are tried before an OCI runtime, elsewhere an OCI
/// runtime before downloading one; what fails last is what is said.
pub proof fn law_attempts_are_in_order(
    macos: bool,
    attempt: Attempt,
    earlier: &str,
    error: &str,
    start: Attempt,
    r: Result<Attempt, String>,
)
    requires
        call_ensures(first_attempt, (macos,), start),
        call_ensures(after_failure, (macos, attempt, earlier, error), r),
    ensures
        macos ==> start == Attempt::Virtualization,
        !macos ==> start == Attempt::Oci,
        attempt == Attempt::Virtualization ==> r is Ok && r->Ok_0 == Attempt::Oci,
        attempt == Attempt::Oci && !macos ==> r is Ok && r->Ok_0 == Attempt::Download,
        attempt == Attempt::Oci && macos ==> r is Err,
        attempt == Attempt::Download ==> r is Err && r->Err_0@
            == "No container runtime available. OCI auto-download failed: "@ + error@,
{
}

/// A container that was found running is taken up as running now, with its process
/// where it has one; one that was found created is taken up as created. Both keep
/// the bundle that was found.
pub proof fn law_recovered_keeps_its_state(
    data_dir: Seq<char>,
    backend: Seq<char>,
    id: Seq<char>,
    info: ContainerStateInfoV,
    now: i128,
)
    ensures
        ({
            let e = recovered_entry(data_dir, backend, id, info, now);
            &&& e.id == id && e.image == "recovered"@ && e.runtime_name == backend
            &&& e.bundle_path == info.bundle
            &&& e.created_at == now && e.finished_at is None && e.exit_code is None
            &&& info.status == "running"@ ==> e.state == ContainerStateV::Running && e.started_at
                == Some(now) && (info.pid > 0 ==> e.pid == Some(info.pid)) && (info.pid == 0
                ==> e.pid is None)
            &&& info.status != "running"@ ==> e.state == ContainerStateV::Created && e.started_at
                is None && e.pid is None
        }),
{
}

/// Only containers that were found running or created are taken up; every other one
/// is known as before.
pub proof fn law_discovery_leaves_others(
    data_dir: Seq<char>,
    backend: Seq<char>,
    store: Map<Seq<char>, ContainerEntryV>,
    found: Seq<(Seq<char>, Option<ContainerStateInfoV>)>,
    now: i128,
    id: Seq<char>,
)
    requires
        forall|i: int|
            0 <= i < found.len() && (#[trigger] found[i]).0 == id && found[i].1 is Some
                ==> found[i].1->0.status != "running"@ && found[i].1->0.status != "created"@,
    ensures
        with_discovered(data_dir, backend, store, found, now).contains_key(id)
            == store.contains_key(id),
        store.contains_key(id) ==> with_discovered(data_dir, backend, store, found, now)[id]
            == store[id],
        !found.filter_map(up_rule()).contains(id),
    decreases found.len(),
{
    reveal(Seq::filter_map);
    if found.len() > 0 {
        let t = found.drop_last();
        let n = found.len() - 1;
        assert forall|i: int|
            0 <= i < t.len() && (#[trigger] t[i]).0 == id && t[i].1 is Some implies t[i].1->0.status
            != "running"@ && t[i].1->0.status != "created"@ by {
            assert(t[i] == found[i]);
        }
        law_discovery_leaves_others(data_dir, backend, store, t, now, id);
        lemma_filter_map_step(found, up_rule(), n);
        assert(found.take(n + 1) =~= found);
        assert(found.take(n) =~= t);
        assert(found[n] == found.last());
        let before = t.filter_map(up_rule());
        match up_rule()(found[n]) {
            Some(x) => {
                if before.push(x).contains(id) {
                    let k = choose|k: int| 0 <= k < before.push(x).len() && before.push(x)[k] == id;
                    if k < before.len() {
                        assert(before[k] == id);
                    }
                }
            },
            None => {},
        }
    }
}

/// A container's directory and log lie in the data directory, under its id.
pub proof fn law_containers_have_their_places(
    c: ContainerRuntime,
    id: &str,
    dir: String,
    log: String,
)
    requires
        call_ensures(ContainerRuntime::container_dir, (&c, id), dir),
        call_ensures(ContainerRuntime::log_path, (&c, id), log),
    ensures
        dir@ == path_join(path_join(c.data_dir@, "containers"@), id@),
        log@ == path_join(path_join(path_join(c.data_dir@, "logs"@), id@), "stdout.log"@),
{
}

/// A runtime keeps its data where it was told to, or in the standard directory, its
/// images below that, and starts without containers.
pub proof fn law_runtime_starts_empty(
    data_dir: Option<&str>,
    backend: &str,
    version: &str,
    handles_images: bool,
    r: ContainerRuntime,
)
    requires
        call_ensures(ContainerRuntime::new, (data_dir, backend, version, handles_images), r),
    ensures
        r.backend@ == backend@,
        r.version@ == version@,
        r.handles_images == handles_images,
        data_dir matches Some(d) ==> r.data_dir@ == d@,
        data_dir is None ==> r.data_dir@ == "/tmp/k3rs-runtime"@,
        r.image_manager.images_dir@ == path_join(r.data_dir@, "images"@),
        forall|id: Seq<char>| !#[trigger] r.store.deep_view().contains_key(id),
{
}

/// A container that was created is known as created by this runtime, in its own
/// directory and with its own log; once it was started it runs, once it was stopped
/// it has ended, and once it was cleaned up it is not known any more.
pub proof fn law_runtime_follows_its_containers(
    made: &mut ContainerRuntime,
    up: &mut ContainerRuntime,
    down: &mut ContainerRuntime,
    gone: &mut ContainerRuntime,
    id: &str,
    image: &str,
    now: i128,
    dir: String,
)
    requires
        call_ensures(ContainerRuntime::created_at, (made, id, image, now), ()),
        call_ensures(ContainerRuntime::started_at, (up, id, now), ()),
        call_ensures(ContainerRuntime::stopped_at, (down, id, now), ()),
        call_ensures(ContainerRuntime::cleanup_container, (gone, id), dir),
        up.store.deep_view().contains_key(id@),
        down.store.deep_view().contains_key(id@),
    ensures
        ({
            let e = final(made).store.deep_view()[id@];
            &&& final(made).store.deep_view().contains_key(id@)
            &&& e.state == ContainerStateV::Created && e.image == image@ && e.created_at == now
            &&& e.runtime_name == old(made).backend@
            &&& e.bundle_path == path_join(
                path_join(old(made).data_dir@, "containers"@),
                id@,
            )
            &&& final(up).store.deep_view()[id@].state == ContainerStateV::Running
            &&& final(up).store.deep_view()[id@].started_at == Some(now)
            &&& final(down).store.deep_view()[id@].state == ContainerStateV::Stopped
            &&& final(down).store.deep_view()[id@].finished_at == Some(now)
            &&& !final(gone).store.deep_view().contains_key(id@)
            &&& dir@ == path_join(path_join(old(gone).data_dir@, "containers"@), id@)
        }),
{
}

/// Discovery names and takes up exactly the containers that were found running or
/// created.
pub proof fn law_discovery_takes_up(
    c: &mut ContainerRuntime,
    found: Vec<(String, Option<ContainerStateInfo>)>,
    now: i128,
    r: Vec<String>,
    i: int,
)
    requires
        call_ensures(ContainerRuntime::discover_at, (c, &found, now), r),
        0 <= i < found.len(),
        forall|j: int|
            i < j < found.len() ==> (#[trigger] found.deep_view()[j]).0 != found.deep_view()[i].0,
        found.deep_view()[i].1 is Some,
        found.deep_view()[i].1->0.status == "running"@ || found.deep_view()[i].1->0.status
            == "created"@,
    ensures
        r.deep_view().contains(found.deep_view()[i].0),
        final(c).store.deep_view().contains_key(found.deep_view()[i].0),
        ({
            let info = found.deep_view()[i].1->0;
            let e = final(c).store.deep_view()[found.deep_view()[i].0];
            &&& info.status == "running"@ ==> e.state == ContainerStateV::Running && e.started_at
                == Some(now)
            &&& info.status == "created"@ ==> e.state == ContainerStateV::Created
            &&& e.bundle_path == info.bundle
            &&& info.status == "running"@ && info.pid > 0 ==> e.pid == Some(info.pid)
        }),
{
    let all = found.deep_view();
    law_discovered_is_tracked(
        old(c).data_dir@,
        old(c).backend@,
        old(c).store.deep_view(),
        all,
        now,
        i,
    );
    lemma_filter_map_has(all, up_rule(), i);
    let out = r.deep_view();
    let k = choose|k: int| 0 <= k < out.len() && out[k] == up_rule()(all[i])->0;
    assert(out[k] == all[i].0);
    reveal_strlit("running");
    reveal_strlit("created");
    assert("running"@[0] == 'r' && "created"@[0] == 'c');
}

/// Cleaning up after a container, or marking one as failed, leaves the way in which the
/// runtime is set up as it is.
pub proof fn law_setup_stays(
    m: &mut ContainerRuntime,
    n: &mut ContainerRuntime,
    id: &str,
    reason: &str,
    r: String,
)
    requires
        call_ensures(ContainerRuntime::cleanup_container, (m, id), r),
        call_ensures(ContainerRuntime::mark_failed, (n, id, reason), ()),
    ensures
        final(m).backend@ == old(m).backend@ && final(n).backend@ == old(n).backend@,
        final(m).version@ == old(m).version@ && final(n).version@ == old(n).version@,
        final(m).handles_images == old(m).handles_images && final(n).handles_images == old(n).handles_images,
        final(m).image_manager.images_dir@ == old(m).image_manager.images_dir@,
        final(m).data_dir@ == old(m).data_dir@ && final(n).data_dir@ == old(n).data_dir@,
{
}

} // verus!
