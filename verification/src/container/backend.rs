//! OCI runtimes: the commands they are given and what they answer.
use vstd::prelude::*;
use vstd::string::*;
#[allow(unused_imports)]
use vstd::utf8::encode_utf8;
use crate::collections::lemma_filter_map_step;
#[allow(unused_imports)]
use crate::collections::lemma_filter_map_has;
use crate::container::state::ContainerStateInfo;
#[allow(unused_imports)]
use crate::container::state::ContainerStateInfoV;
use crate::json::{parse_text, Json};
#[allow(unused_imports)]
use crate::json::{field, json_in, text_field, JsonV};
use crate::keys::join_path;
#[allow(unused_imports)]
use crate::keys::path_join;
use crate::model::clone_strings;
use crate::numbers::parse_u32;
#[allow(unused_imports)]
use crate::numbers::{decimal, law_decimal_is_read_back, parse_unsigned};
use crate::split::{lines, split_on, tail_lines, trim};
#[allow(unused_imports)]
use crate::split::{last_of, law_split_undoes_join, lines_of, split_char, trimmed};
use crate::text::{cat3, str_eq};

verus! {

/// A pluggable runtime backend.
pub trait RuntimeBackend {
    /// Human-readable name of this runtime backend.
    fn name(&self) -> (r: String);

    /// Version string of the runtime.
    fn version(&self) -> (r: String);

    /// Whether this backend handles image pulling internally.
    fn handles_images(&self) -> (r: bool)
        default_ensures
            r == false,
    {
        false
    }
}

/// OCI-compliant runtime backend — invokes youki or crun.
pub struct OciBackend {
    /// Path to the OCI runtime binary.
    pub runtime_path: String,
    /// Name of the runtime.
    pub runtime_name: String,
    /// Version string.
    pub runtime_version: String,
    /// Directory for container log files.
    pub log_dir: String,
    /// Root directory for runtime state.
    pub state_dir: String,
}

impl RuntimeBackend for OciBackend {
    fn name(&self) -> (r: String)
        ensures
            r@ == self.runtime_name@,
    {
        self.runtime_name.clone()
    }

    fn version(&self) -> (r: String)
        ensures
            r@ == self.runtime_version@,
    {
        self.runtime_version.clone()
    }
}

// ---------------------------------------------------------------------------
// Paths and versions
// ---------------------------------------------------------------------------

/// The last of the parts that name something.
pub open spec fn last_name(parts: Seq<Seq<char>>) -> Option<Seq<char>>
    decreases parts.len(),
{
    if parts.len() == 0 {
        None
    } else if parts.last().len() == 0 || parts.last() == "."@ {
        last_name(parts.drop_last())
    } else if parts.last() == ".."@ {
        None
    } else {
        Some(parts.last())
    }
}

/// The file name of a path, where it has one.
pub open spec fn file_name_of(path: Seq<char>) -> Option<Seq<char>> {
    last_name(split_char(path, '/'))
}

/// Takes the file name of a path.
pub fn file_name(path: &str) -> (r: Option<String>)
    ensures
        r.deep_view() == file_name_of(path@),
{
    let parts: Vec<String> = split_on(path, '/');
    let ghost all = parts.deep_view();
    let mut i: usize = parts.len();
    assert(all.take(i as int) =~= all);
    while i > 0
        invariant
            i <= parts@.len(),
            all == parts.deep_view(),
            all == split_char(path@, '/'),
            last_name(all) == last_name(all.take(i as int)),
        decreases i,
    {
        assert(all.take(i as int).last() == parts@[i - 1]@);
        assert(all.take(i as int).drop_last() =~= all.take(i - 1));
        let p: &str = parts[i - 1].as_str();
        if p.is_empty() || str_eq(p, ".") {
            i = i - 1;
        } else if str_eq(p, "..") {
            return None;
        } else {
            return Some(parts[i - 1].clone());
        }
    }
    None
}

/// The version in the output of a runtime: its first line, trimmed.
pub open spec fn version_in(output: Option<Seq<char>>) -> Seq<char> {
    match output {
        Some(o) => if lines_of(o).len() > 0 {
            trimmed(lines_of(o)[0])
        } else {
            trimmed("unknown"@)
        },
        None => "unknown"@,
    }
}

/// Reads the version from the output of a runtime, where it could be run.
pub fn version_of(output: Option<&str>) -> (r: String)
    ensures
        r@ == version_in(output.deep_view()),
{
    match output {
        Some(o) => {
            let all: Vec<String> = lines(o);
            assert(all.deep_view().len() == all@.len());
            if all.len() > 0 {
                assert(all.deep_view()[0] == all@[0]@);
                trim(all[0].as_str())
            } else {
                trim("unknown")
            }
        },
        None => "unknown".to_owned(),
    }
}

/// The name of a runtime by its path.
pub open spec fn runtime_name_of(path: Seq<char>) -> Seq<char> {
    match file_name_of(path) {
        Some(n) => n,
        None => "unknown"@,
    }
}

/// The number in a PID file.
pub open spec fn pid_in(text: Seq<char>) -> Option<nat> {
    parse_unsigned(trimmed(text), 0xffff_ffff)
}

/// Reads the number from the text of a PID file.
pub fn parse_pid(text: &str) -> (r: Option<u32>)
    ensures
        match r {
            Some(n) => pid_in(text@) == Some(n as nat),
            None => pid_in(text@) is None,
        },
{
    let t: String = trim(text);
    parse_u32(t.as_str())
}

// ---------------------------------------------------------------------------
// Commands
// ---------------------------------------------------------------------------

/// The arguments of a command, after those that select the state directory.
pub open spec fn rooted(state_dir: Seq<char>, args: Seq<Seq<char>>) -> Seq<Seq<char>> {
    seq!["--root"@, state_dir] + args
}

/// Keeps the lines that are not blank, trimmed.
pub open spec fn id_rule() -> spec_fn(Seq<char>) -> Option<Seq<char>> {
    |l: Seq<char>|
        if trimmed(l).len() > 0 {
            Some(trimmed(l))
        } else {
            None
        }
}

/// The state that a runtime reports of a container, as JSON.
pub open spec fn reported_state(v: JsonV, id: Seq<char>) -> ContainerStateInfoV {
    ContainerStateInfoV {
        id: match text_field(v, "id"@) {
            Some(s) => s,
            None => id,
        },
        status: match text_field(v, "status"@) {
            Some(s) => s,
            None => "unknown"@,
        },
        pid: match field(v, "pid"@) {
            Some(JsonV::UInt(n)) => (n as int % 0x1_0000_0000) as u32,
            _ => 0,
        },
        bundle: match text_field(v, "bundle"@) {
            Some(s) => s,
            None => Seq::empty(),
        },
    }
}

/// Whether `which` has found the program at a position of a search.
pub open spec fn finds(which: Seq<(bool, Seq<char>)>, i: int) -> bool {
    0 <= i < which.len() && which[i].0
}

/// The arguments that create a container from a bundle.
pub open spec fn create_args(
    state_dir: Seq<char>,
    log_dir: Seq<char>,
    id: Seq<char>,
    bundle: Seq<char>,
) -> Seq<Seq<char>> {
    rooted(
        state_dir,
        seq![
            "create"@,
            "--bundle"@,
            bundle,
            "--pid-file"@,
            path_join(path_join(log_dir, id), "container.pid"@),
            "--log"@,
            path_join(path_join(log_dir, id), "stdout.log"@),
            id,
        ],
    )
}

impl OciBackend {
    /// The backend for a runtime at a given path that reports a given version.
    pub fn new(runtime_path: &str, data_dir: &str, version_output: Option<&str>) -> (r: Self)
        ensures
            r.runtime_path@ == runtime_path@,
            r.runtime_name@ == runtime_name_of(runtime_path@),
            r.runtime_version@ == version_in(version_output.deep_view()),
            r.log_dir@ == path_join(data_dir@, "logs"@),
            r.state_dir@ == path_join(data_dir@, "state"@),
    {
        let name: String = match file_name(runtime_path) {
            Some(n) => n,
            None => "unknown".to_owned(),
        };
        OciBackend {
            runtime_path: runtime_path.to_owned(),
            runtime_name: name,
            runtime_version: version_of(version_output),
            log_dir: join_path(data_dir, "logs"),
            state_dir: join_path(data_dir, "state"),
        }
    }

    /// Picks the runtime to use, youki before crun, by what `which` has said of
    /// each of the two: its name and its path.
    pub fn detect(which: &Vec<(bool, String)>) -> (r: Result<(String, String), String>)
        ensures
            match r {
                Ok(x) => if finds(which.deep_view(), 0) {
                    x.0@ == "youki"@ && x.1@ == trimmed(which@[0].1@)
                } else {
                    finds(which.deep_view(), 1) && x.0@ == "crun"@ && x.1@ == trimmed(
                        which@[1].1@,
                    )
                },
                Err(e) => !finds(which.deep_view(), 0) && !finds(which.deep_view(), 1) && e@
                    == "No OCI runtime found in PATH. Install youki or crun."@,
            },
    {
        assert(which.deep_view().len() == which@.len());
        assert(forall|i: int|
            0 <= i < which@.len() ==> (#[trigger] which.deep_view()[i]).0 == which@[i].0);
        if which.len() > 0 && which[0].0 {
            Ok(("youki".to_owned(), trim(which[0].1.as_str())))
        } else if which.len() > 1 && which[1].0 {
            Ok(("crun".to_owned(), trim(which[1].1.as_str())))
        } else {
            Err("No OCI runtime found in PATH. Install youki or crun.".to_owned())
        }
    }

    /// The backend for a runtime that was found under a name.
    pub fn found(name: &str, which_output: &str, data_dir: &str, version_output: Option<&str>) -> (r:
        Self)
        ensures
            r.runtime_path@ == trimmed(which_output@),
            r.runtime_name@ == name@,
            r.runtime_version@ == version_in(version_output.deep_view()),
            r.log_dir@ == path_join(data_dir@, "logs"@),
            r.state_dir@ == path_join(data_dir@, "state"@),
    {
        OciBackend {
            runtime_path: trim(which_output),
            runtime_name: name.to_owned(),
            runtime_version: version_of(version_output),
            log_dir: join_path(data_dir, "logs"),
            state_dir: join_path(data_dir, "state"),
        }
    }

    /// The log directory for a container.
    pub fn container_log_dir(&self, id: &str) -> (r: String)
        ensures
            r@ == path_join(self.log_dir@, id@),
    {
        join_path(self.log_dir.as_str(), id)
    }

    /// The stdout log path for a container.
    pub fn container_log_path(&self, id: &str) -> (r: String)
        ensures
            r@ == path_join(path_join(self.log_dir@, id@), "stdout.log"@),
    {
        join_path(self.container_log_dir(id).as_str(), "stdout.log")
    }

    /// The PID file path for a container.
    pub fn container_pid_file(&self, id: &str) -> (r: String)
        ensures
            r@ == path_join(path_join(self.log_dir@, id@), "container.pid"@),
    {
        join_path(self.container_log_dir(id).as_str(), "container.pid")
    }

    /// The PID in the text of a PID file, where there is one.
    pub fn read_pid(text: Option<&str>) -> (r: Option<u32>)
        ensures
            match r {
                Some(n) => text is Some && pid_in(text->0@) == Some(n as nat),
                None => text is None || pid_in(text->0@) is None,
            },
    {
        match text {
            Some(t) => parse_pid(t),
            None => None,
        }
    }

    fn command(&self, args: Vec<&str>) -> (r: Vec<String>)
        ensures
            r.deep_view() == rooted(self.state_dir@, args.deep_view()),
    {
        let ghost all = args.deep_view();
        let ghost head = seq!["--root"@, self.state_dir@];
        let mut out: Vec<String> = Vec::new();
        out.push("--root".to_owned());
        out.push(self.state_dir.clone());
        let mut i: usize = 0;
        assert(out.deep_view() =~= head + all.take(0));
        while i < args.len()
            invariant
                i <= args@.len(),
                all == args.deep_view(),
                out.deep_view() == head + all.take(i as int),
            decreases args@.len() - i,
        {
            let ghost before = out.deep_view();
            out.push(args[i].to_owned());
            assert(out.deep_view() =~= before.push(all[i as int]));
            assert(head + all.take(i + 1) =~= before.push(all[i as int]));
            i = i + 1;
        }
        assert(all.take(i as int) =~= all);
        out
    }

    /// The command that creates a container from a bundle.
    pub fn create_command(&self, id: &str, bundle: &str) -> (r: Vec<String>)
        ensures
            r.deep_view() == create_args(self.state_dir@, self.log_dir@, id@, bundle@),
    {
        let pid_file: String = self.container_pid_file(id);
        let log: String = self.container_log_path(id);
        let args: Vec<&str> = vec![
            "create",
            "--bundle",
            bundle,
            "--pid-file",
            pid_file.as_str(),
            "--log",
            log.as_str(),
            id,
        ];
        assert(args.deep_view() =~= seq![
            "create"@,
            "--bundle"@,
            bundle@,
            "--pid-file"@,
            pid_file@,
            "--log"@,
            log@,
            id@,
        ]);
        self.command(args)
    }

    /// The command that creates a container directly from an image: that of
    /// creating it from a bundle, with the image in its place. What the container
    /// runs is left to the image.
    pub fn create_from_image(&self, id: &str, image: &str) -> (r: Vec<String>)
        ensures
            r.deep_view() == create_args(self.state_dir@, self.log_dir@, id@, image@),
    {
        self.create_command(id, image)
    }

    /// The command that starts a created container.
    pub fn start_command(&self, id: &str) -> (r: Vec<String>)
        ensures
            r.deep_view() == rooted(self.state_dir@, seq!["start"@, id@]),
    {
        let args: Vec<&str> = vec!["start", id];
        assert(args.deep_view() =~= seq!["start"@, id@]);
        self.command(args)
    }

    /// The command that sends a signal to a container.
    pub fn kill_command(&self, id: &str, signal: &str) -> (r: Vec<String>)
        ensures
            r.deep_view() == rooted(self.state_dir@, seq!["kill"@, id@, signal@]),
    {
        let args: Vec<&str> = vec!["kill", id, signal];
        assert(args.deep_view() =~= seq!["kill"@, id@, signal@]);
        self.command(args)
    }

    /// The command that deletes a container.
    pub fn delete_command(&self, id: &str) -> (r: Vec<String>)
        ensures
            r.deep_view() == rooted(self.state_dir@, seq!["delete"@, "--force"@, id@]),
    {
        let args: Vec<&str> = vec!["delete", "--force", id];
        assert(args.deep_view() =~= seq!["delete"@, "--force"@, id@]);
        self.command(args)
    }

    /// The command that lists containers.
    pub fn list_command(&self) -> (r: Vec<String>)
        ensures
            r.deep_view() == rooted(self.state_dir@, seq!["list"@, "-q"@]),
    {
        let args: Vec<&str> = vec!["list", "-q"];
        assert(args.deep_view() =~= seq!["list"@, "-q"@]);
        self.command(args)
    }

    /// The command that queries the state of a container.
    pub fn state_command(&self, id: &str) -> (r: Vec<String>)
        ensures
            r.deep_view() == rooted(self.state_dir@, seq!["state"@, id@]),
    {
        let args: Vec<&str> = vec!["state", id];
        assert(args.deep_view() =~= seq!["state"@, id@]);
        self.command(args)
    }

    /// The command that executes a command inside a container.
    pub fn exec_command(&self, id: &str, command: &Vec<String>) -> (r: Vec<String>)
        ensures
            r.deep_view() == rooted(self.state_dir@, seq!["exec"@, id@] + command.deep_view()),
    {
        let args: Vec<&str> = vec!["exec", id];
        assert(args.deep_view() =~= seq!["exec"@, id@]);
        let mut out: Vec<String> = self.command(args);
        let ghost a = out.deep_view();
        let mut rest: Vec<String> = clone_strings(command);
        out.append(&mut rest);
        assert(out.deep_view() =~= a + command.deep_view());
        assert(a + command.deep_view() =~= rooted(
            self.state_dir@,
            seq!["exec"@, id@] + command.deep_view(),
        ));
        out
    }

    /// What is said of an operation that the runtime refused.
    pub fn failure(&self, operation: &str, id: &str, stderr: &str) -> (r: String)
        ensures
            r@ == "["@ + self.runtime_name@ + "] "@ + operation@ + " failed for "@ + id@ + ": "@
                + trimmed(stderr@),
    {
        let mut s: String = cat3("[", self.runtime_name.as_str(), "] ");
        s.append(operation);
        s.append(" failed for ");
        s.append(id);
        s.append(": ");
        s.append(trim(stderr).as_str());
        s
    }

    /// What a command inside a container has written, or what is said where it failed.
    pub fn exec_result(&self, id: &str, success: bool, stdout: &str, stderr: &str) -> (r: Result<
        String,
        String,
    >)
        ensures
            r is Ok <==> success,
            match r {
                Ok(out) => out@ == stdout@,
                Err(e) => e@ == "["@ + self.runtime_name@ + "] exec failed in "@ + id@ + ": "@
                    + stdout@ + stderr@,
            },
    {
        if success {
            Ok(stdout.to_owned())
        } else {
            let mut s: String = cat3("[", self.runtime_name.as_str(), "] exec failed in ");
            s.append(id);
            s.append(": ");
            s.append(stdout);
            s.append(stderr);
            Err(s)
        }
    }

    /// The container ids in the output of the list command.
    pub fn parse_list(stdout: &str) -> (r: Vec<String>)
        ensures
            r.deep_view() == lines_of(stdout@).filter_map(id_rule()),
    {
        let all: Vec<String> = lines(stdout);
        let ghost ls = all.deep_view();
        let mut out: Vec<String> = Vec::new();
        let mut i: usize = 0;
        assert(ls.take(0) =~= Seq::<Seq<char>>::empty());
        assert(out.deep_view() =~= Seq::<Seq<char>>::empty());
        while i < all.len()
            invariant
                i <= all@.len(),
                ls == all.deep_view(),
                out.deep_view() == ls.take(i as int).filter_map(id_rule()),
            decreases all@.len() - i,
        {
            proof {
                lemma_filter_map_step(ls, id_rule(), i as int);
                assert(ls[i as int] == all@[i as int]@);
            }
            let t: String = trim(all[i].as_str());
            if !t.as_str().is_empty() {
                let ghost before = out.deep_view();
                let ghost tv = t@;
                out.push(t);
                assert(out.deep_view() =~= before.push(tv));
            }
            i = i + 1;
        }
        assert(ls.take(i as int) =~= ls);
        out
    }

    /// The last lines of a container's log, or a notice where it has none.
    pub fn logs(&self, id: &str, content: Option<&str>, tail: usize) -> (r: Vec<String>)
        ensures
            r.deep_view() == match content {
                Some(c) => last_of(lines_of(c@), tail as int),
                None => seq![
                    "["@ + self.runtime_name@ + "] No logs available for container "@ + id@
                        + " (log path: "@ + path_join(
                        path_join(self.log_dir@, id@),
                        "stdout.log"@,
                    ) + ")"@,
                ],
            },
    {
        match content {
            Some(c) => tail_lines(c, tail),
            None => {
                let mut s: String = cat3(
                    "[",
                    self.runtime_name.as_str(),
                    "] No logs available for container ",
                );
                s.append(id);
                s.append(" (log path: ");
                s.append(self.container_log_path(id).as_str());
                s.append(")");
                let ghost sv = s@;
                let mut out: Vec<String> = Vec::new();
                out.push(s);
                assert(out.deep_view() =~= seq![sv]);
                out
            },
        }
    }

    /// The state that a runtime has reported as a JSON value.
    pub fn state_from(v: &Json, id: &str) -> (r: ContainerStateInfo)
        ensures
            r.deep_view() == reported_state(v.deep_view(), id@),
    {
        let pid: u32 = match v.get("pid") {
            Some(Json::UInt(n)) => (*n % 0x1_0000_0000) as u32,
            _ => 0,
        };
        ContainerStateInfo {
            id: match v.get_str("id") {
                Some(s) => s.clone(),
                None => id.to_owned(),
            },
            status: match v.get_str("status") {
                Some(s) => s.clone(),
                None => "unknown".to_owned(),
            },
            pid,
            bundle: match v.get_str("bundle") {
                Some(s) => s.clone(),
                None => String::new(),
            },
        }
    }

    /// Reads the state of a container from the output of the state command;
    /// none where it is not JSON.
    pub fn parse_state(stdout: &str, id: &str) -> (r: Option<ContainerStateInfo>)
        ensures
            r.deep_view() == match json_in(encode_utf8(stdout@)) {
                Some(v) => Some(reported_state(v, id@)),
                None => None,
            },
    {
        match parse_text(stdout) {
            Some(v) => Some(Self::state_from(&v, id)),
            None => None,
        }
    }
}

/// Every command of a runtime names its state directory first, then what is to be
/// done, and of which container: to start, end, delete, ask for or run something in.
pub proof fn law_commands_are_rooted(
    b: OciBackend,
    id: &str,
    signal: &str,
    command: Vec<String>,
    start: Vec<String>,
    kill: Vec<String>,
    delete: Vec<String>,
    list: Vec<String>,
    state: Vec<String>,
    run: Vec<String>,
)
    requires
        call_ensures(OciBackend::start_command, (&b, id), start),
        call_ensures(OciBackend::kill_command, (&b, id, signal), kill),
        call_ensures(OciBackend::delete_command, (&b, id), delete),
        call_ensures(OciBackend::list_command, (&b,), list),
        call_ensures(OciBackend::state_command, (&b, id), state),
        call_ensures(OciBackend::exec_command, (&b, id, &command), run),
    ensures
        start.deep_view() == seq!["--root"@, b.state_dir@, "start"@, id@],
        kill.deep_view() == seq!["--root"@, b.state_dir@, "kill"@, id@, signal@],
        delete.deep_view() == seq!["--root"@, b.state_dir@, "delete"@, "--force"@, id@],
        list.deep_view() == seq!["--root"@, b.state_dir@, "list"@, "-q"@],
        state.deep_view() == seq!["--root"@, b.state_dir@, "state"@, id@],
        run.deep_view() == seq!["--root"@, b.state_dir@, "exec"@, id@] + command.deep_view(),
{
    assert(seq!["--root"@, b.state_dir@] + (seq!["exec"@, id@] + command.deep_view())
        =~= seq!["--root"@, b.state_dir@, "exec"@, id@] + command.deep_view());
}

/// A container is created from its bundle, and leaves its process id and its output
/// where they are looked for later.
pub proof fn law_creation_writes_where_it_is_read(
    b: OciBackend,
    id: &str,
    bundle: &str,
    r: Vec<String>,
    pid_file: String,
    log: String,
)
    requires
        call_ensures(OciBackend::create_command, (&b, id, bundle), r),
        call_ensures(OciBackend::container_pid_file, (&b, id), pid_file),
        call_ensures(OciBackend::container_log_path, (&b, id), log),
    ensures
        r.deep_view() == seq![
            "--root"@,
            b.state_dir@,
            "create"@,
            "--bundle"@,
            bundle@,
            "--pid-file"@,
            pid_file@,
            "--log"@,
            log@,
            id@,
        ],
        pid_file@ == path_join(path_join(b.log_dir@, id@), "container.pid"@),
        log@ == path_join(path_join(b.log_dir@, id@), "stdout.log"@),
{
}

/// Youki is taken where it was found, else crun, else none.
pub proof fn law_youki_before_crun(
    which: Vec<(bool, String)>,
    r: Result<(String, String), String>,
)
    requires
        call_ensures(OciBackend::detect, (&which,), r),
        which.len() == 2,
    ensures
        which[0].0 ==> r is Ok && (r->Ok_0).0@ == "youki"@ && (r->Ok_0).1@ == trimmed(which[0].1@),
        !which[0].0 && which[1].0 ==> r is Ok && (r->Ok_0).0@ == "crun"@ && (r->Ok_0).1@ == trimmed(
            which[1].1@,
        ),
        !which[0].0 && !which[1].0 ==> r is Err,
{
    let w = which.deep_view();
    assert(w.len() == 2);
    assert(w[0] == which[0].deep_view() && w[1] == which[1].deep_view());
}

/// A listing names exactly the containers on its lines that are not blank, without
/// the whitespace round them.
pub proof fn law_listing_names_containers(stdout: &str, r: Vec<String>, i: int, k: int)
    requires
        call_ensures(OciBackend::parse_list, (stdout,), r),
    ensures
        0 <= i < lines_of(stdout@).len() && trimmed(lines_of(stdout@)[i]).len() > 0
            ==> r.deep_view().contains(trimmed(lines_of(stdout@)[i])),
        0 <= k < r.len() ==> r[k]@.len() > 0 && exists|j: int|
            0 <= j < lines_of(stdout@).len() && trimmed(#[trigger] lines_of(stdout@)[j]) == r[k]@,
{
    let all = lines_of(stdout@);
    let out = r.deep_view();
    if 0 <= i < all.len() && trimmed(all[i]).len() > 0 {
        lemma_filter_map_has(all, id_rule(), i);
        let m = choose|m: int| 0 <= m < out.len() && out[m] == id_rule()(all[i])->0;
        assert(out.contains(out[m]));
    }
    if 0 <= k < r.len() {
        assert(out[k] == r[k]@);
        assert(out.contains(out[k]));
        all.lemma_filter_map_contains(id_rule(), out[k]);
        let j = choose|j: int| 0 <= j < all.len() && #[trigger] id_rule()(all[j]) == Some(out[k]);
        assert(trimmed(all[j]) == r[k]@);
    }
}

/// Logs are the last lines of what was written, at most as many as were asked for
/// and all where there are fewer; where there is no log a line says so.
pub proof fn law_logs_are_the_last_lines(
    b: OciBackend,
    id: &str,
    content: Option<&str>,
    tail: usize,
    r: Vec<String>,
)
    requires
        call_ensures(OciBackend::logs, (&b, id, content, tail), r),
    ensures
        content matches Some(c) ==> {
            let all = lines_of(c@);
            &&& all.len() <= tail ==> r.deep_view() == all
            &&& all.len() > tail ==> r.len() == tail && forall|i: int|
                0 <= i < tail ==> (#[trigger] r.deep_view()[i]) == all[all.len() - tail + i]
        },
        content is None ==> r.len() == 1,
{
    assert(r.deep_view().len() == r.len());
}

/// What is run in a container gives its output where it succeeds, and both outputs
/// where it does not.
pub proof fn law_run_gives_its_output(
    b: OciBackend,
    id: &str,
    success: bool,
    stdout: &str,
    stderr: &str,
    r: Result<String, String>,
)
    requires
        call_ensures(OciBackend::exec_result, (&b, id, success, stdout, stderr), r),
    ensures
        success ==> r is Ok && r->Ok_0@ == stdout@,
        !success ==> r is Err && r->Err_0@ == "["@ + b.runtime_name@ + "] exec failed in "@ + id@
            + ": "@ + stdout@ + stderr@,
{
}

/// What a runtime reports of a container is taken as it is where it is there: the
/// id that was asked for, an unknown status, no process and no bundle otherwise.
pub proof fn law_report_is_taken(v: Json, id: &str, r: ContainerStateInfo)
    requires
        call_ensures(OciBackend::state_from, (&v, id), r),
    ensures
        ({
            let j = v.deep_view();
            &&& text_field(j, "id"@) matches Some(s) ==> r.id@ == s
            &&& text_field(j, "id"@) is None ==> r.id@ == id@
            &&& text_field(j, "status"@) matches Some(s) ==> r.status@ == s
            &&& text_field(j, "status"@) is None ==> r.status@ == "unknown"@
            &&& text_field(j, "bundle"@) matches Some(s) ==> r.bundle@ == s
            &&& text_field(j, "bundle"@) is None ==> r.bundle@.len() == 0
            &&& field(j, "pid"@) matches Some(JsonV::UInt(n)) ==> (n <= u32::MAX ==> r.pid == n)
            &&& !(field(j, "pid"@) matches Some(JsonV::UInt(_))) ==> r.pid == 0
        }),
{
}

/// A process id is read back from its decimal form, with or without a line end.
pub proof fn law_pid_is_read_back(text: &str, n: u32, r: Option<u32>)
    requires
        call_ensures(parse_pid, (text,), r),
        trimmed(text@) == decimal(n as nat),
    ensures
        r == Some(n),
{
    law_decimal_is_read_back(n as nat, 0xffff_ffff);
}

/// The name of a runtime is the last part of its path.
pub proof fn law_file_name_is_the_last_part(dir: Seq<char>, name: Seq<char>)
    requires
        name.len() > 0,
        name != "."@,
        name != ".."@,
        forall|i: int| 0 <= i < name.len() ==> #[trigger] name[i] != '/',
    ensures
        file_name_of(dir + seq!['/'] + name) == Some(name),
        file_name_of(name) == Some(name),
    decreases dir.len(),
{
    let path = dir + seq!['/'] + name;
    law_split_undoes_join(name, '/', Seq::empty());
    lemma_last_piece(dir, name);
    let p = split_char(path, '/');
    assert(p.last() == name);
    assert(last_name(p) == Some(name));
    assert(split_char(name, '/').last() == name);
}

proof fn lemma_last_piece(dir: Seq<char>, name: Seq<char>)
    requires
        forall|i: int| 0 <= i < name.len() ==> #[trigger] name[i] != '/',
    ensures
        split_char(dir + seq!['/'] + name, '/').len() > 0,
        split_char(dir + seq!['/'] + name, '/').last() == name,
    decreases dir.len(),
{
    law_split_undoes_join(name, '/', Seq::empty());
    if forall|i: int| 0 <= i < dir.len() ==> #[trigger] dir[i] != '/' {
        law_split_undoes_join(dir, '/', name);
        let s = seq![dir] + split_char(name, '/');
        assert(s.last() == name);
    } else {
        let k = lemma_first_slash(dir);
        let a = dir.take(k);
        let b = dir.skip(k + 1);
        assert(dir =~= a + seq!['/'] + b);
        let rest = b + seq!['/'] + name;
        assert(dir + seq!['/'] + name =~= a + seq!['/'] + rest);
        law_split_undoes_join(a, '/', rest);
        lemma_last_piece(b, name);
        let s = seq![a] + split_char(rest, '/');
        assert(s.last() == split_char(rest, '/').last());
    }
}

proof fn lemma_first_slash(s: Seq<char>) -> (k: int)
    requires
        exists|i: int| 0 <= i < s.len() && #[trigger] s[i] == '/',
    ensures
        0 <= k < s.len(),
        s[k] == '/',
        forall|i: int| 0 <= i < s.take(k).len() ==> #[trigger] s.take(k)[i] != '/',
    decreases s.len(),
{
    if s[0] == '/' {
        0
    } else {
        let i = choose|i: int| 0 <= i < s.len() && #[trigger] s[i] == '/';
        let t = s.skip(1);
        assert(t[i - 1] == '/');
        let k = lemma_first_slash(t);
        assert forall|j: int| 0 <= j < s.take(k + 1).len() implies #[trigger] s.take(k + 1)[j]
            != '/' by {
            if j > 0 {
                assert(t.take(k)[j - 1] == s[j]);
            }
        }
        k + 1
    }
}

/// The version of a runtime is the first line of what it says, without spaces around it;
/// where it says nothing, the version is unknown.
pub proof fn law_version_is_the_first_line(
    output: Option<&str>,
    line: Seq<char>,
    rest: Seq<char>,
    r: String,
)
    requires
        call_ensures(version_of, (output,), r),
        !line.contains('\n'),
        line.len() > 0 ==> line.last() != '\r',
    ensures
        (output matches Some(o) && o@ == line + seq!['\n'] + rest) ==> r@ == trimmed(line),
        (output matches Some(o) && o@ == line && line.len() > 0) ==> r@ == trimmed(line),
        output is None ==> r@ == "unknown"@,
{
    crate::split::law_lines(line, rest);
    if output is Some {
        assert(output.deep_view() == Some(output->0@));
    }
}

/// A runtime that was found is where the search says, and keeps its logs and its states
/// apart in the data directory.
pub proof fn law_found_runtime_is_used(
    name: &str,
    which: &str,
    data_dir: &str,
    output: Option<&str>,
    version: String,
    r: OciBackend,
)
    requires
        call_ensures(OciBackend::found, (name, which, data_dir, output), r),
        call_ensures(version_of, (output,), version),
    ensures
        r.runtime_name@ == name@,
        r.runtime_path@ == trimmed(which@),
        r.runtime_version@ == version@,
        data_dir@.len() > 0 && data_dir@.last() != '/' ==> r.log_dir@ == data_dir@ + "/"@ + "logs"@
            && r.state_dir@ == data_dir@ + "/"@ + "state"@,
{
    reveal_strlit("logs");
    reveal_strlit("state");
    reveal_strlit("/");
    crate::keys::law_paths_are_joined(data_dir@, "logs"@);
    crate::keys::law_paths_are_joined(data_dir@, "state"@);
    assert("/"@ =~= seq!['/']);
}

/// A container is created from an image as from a bundle; a file with a process number
/// is read as its text.
pub proof fn law_image_stands_for_a_bundle(
    b: OciBackend,
    id: &str,
    path: &str,
    x: Vec<String>,
    y: Vec<String>,
    p: Option<u32>,
    q: Option<u32>,
)
    requires
        call_ensures(OciBackend::create_from_image, (&b, id, path), x),
        call_ensures(OciBackend::create_command, (&b, id, path), y),
        call_ensures(OciBackend::read_pid, (Some(path),), p),
        call_ensures(parse_pid, (path,), q),
    ensures
        x.deep_view() == y.deep_view(),
        p == q,
{
}

} // verus!
