//! When a controller makes a pass.
use vstd::prelude::*;
use vstd::string::*;
use crate::text::starts_with;
#[allow(unused_imports)]
use crate::text::has_prefix;

verus! {

/// What a controller waits for.
#[derive(Debug)]
pub enum WakeEvent {
    /// The interval is over.
    Tick,
    /// A key of the store has changed.
    Change(String),
    /// So many keys have changed that some were missed.
    Lagged,
    /// There will be no more events.
    Closed,
}

/// What a controller does.
#[derive(Debug, Clone, Copy, PartialEq, Eq, Structural)]
pub enum WakeAction {
    /// Make a pass.
    Pass,
    /// Make a pass and start the interval anew; events that came in meanwhile
    /// are dropped, before and after, where `drain` is set.
    PassAndReset {
        /// Whether events are dropped.
        drain: bool,
    },
    /// Nothing.
    Wait,
    /// End.
    Stop,
}

/// Whether a key is under one of some prefixes.
pub open spec fn under_any(key: Seq<char>, prefixes: Seq<Seq<char>>) -> bool {
    exists|i: int| 0 <= i < prefixes.len() && has_prefix(key, #[trigger] prefixes[i])
}

/// What a controller that watches some prefixes does on an event.
pub open spec fn wake_action(event: WakeEvent, prefixes: Seq<Seq<char>>) -> WakeAction {
    match event {
        WakeEvent::Tick => WakeAction::Pass,
        WakeEvent::Change(key) => if under_any(key@, prefixes) {
            WakeAction::PassAndReset { drain: true }
        } else {
            WakeAction::Wait
        },
        WakeEvent::Lagged => WakeAction::PassAndReset { drain: false },
        WakeEvent::Closed => WakeAction::Stop,
    }
}

/// Decides what a controller that watches some prefixes does on an event.
pub fn on_event(event: &WakeEvent, prefixes: &Vec<&str>) -> (r: WakeAction)
    ensures
        r == wake_action(*event, prefixes.deep_view()),
{
    match event {
        WakeEvent::Tick => WakeAction::Pass,
        WakeEvent::Change(key) => {
            let ghost all = prefixes.deep_view();
            let mut i: usize = 0;
            while i < prefixes.len()
                invariant
                    i <= prefixes@.len(),
                    all == prefixes.deep_view(),
                    *event == WakeEvent::Change(*key),
                    forall|j: int| 0 <= j < i ==> !has_prefix(key@, #[trigger] all[j]),
                decreases prefixes@.len() - i,
            {
                assert(all[i as int] == prefixes@[i as int]@);
                if starts_with(key.as_str(), prefixes[i]) {
                    assert(under_any(key@, all));
                    return WakeAction::PassAndReset { drain: true };
                }
                i = i + 1;
            }
            WakeAction::Wait
        },
        WakeEvent::Lagged => WakeAction::PassAndReset { drain: false },
        WakeEvent::Closed => WakeAction::Stop,
    }
}

/// The prefixes that the endpoint controller watches.
pub fn endpoint_prefixes() -> (r: Vec<&'static str>)
    ensures
        r.deep_view() == seq!["/registry/pods/"@, "/registry/services/"@],
{
    let mut out: Vec<&'static str> = Vec::new();
    out.push("/registry/pods/");
    out.push("/registry/services/");
    assert(out.deep_view() =~= seq!["/registry/pods/"@, "/registry/services/"@]);
    out
}

/// The prefixes that the eviction controller watches.
pub fn eviction_prefixes() -> (r: Vec<&'static str>)
    ensures
        r.deep_view() == seq!["/registry/nodes/"@],
{
    let mut out: Vec<&'static str> = Vec::new();
    out.push("/registry/nodes/");
    assert(out.deep_view() =~= seq!["/registry/nodes/"@]);
    out
}

/// The prefixes that the VPC controller watches.
pub fn vpc_prefixes() -> (r: Vec<&'static str>)
    ensures
        r.deep_view() == seq!["/registry/vpcs/"@],
{
    let mut out: Vec<&'static str> = Vec::new();
    out.push("/registry/vpcs/");
    assert(out.deep_view() =~= seq!["/registry/vpcs/"@]);
    out
}

/// Whether a server leads, as it learns of it.
#[derive(Debug, Clone, Copy, PartialEq, Eq, Structural)]
pub enum LeaderEvent {
    /// It leads.
    Leads,
    /// It follows.
    Follows,
    /// It will not learn of it any more.
    Closed,
}

/// What becomes of the controllers.
#[derive(Debug, Clone, Copy, PartialEq, Eq, Structural)]
pub enum LeaderAction {
    /// They are started.
    Start,
    /// They are stopped.
    Stop,
    /// Nothing.
    Wait,
    /// Nothing more is to come.
    Leave,
}

/// Controllers run only while a server leads.
#[derive(Debug, Clone, Copy, PartialEq, Eq, Structural)]
pub struct LeaderGate {
    /// Whether the controllers run.
    pub running: bool,
}

/// What becomes of the controllers when a server learns whether it leads.
pub open spec fn gate_action(running: bool, event: LeaderEvent) -> LeaderAction {
    match event {
        LeaderEvent::Leads => if running {
            LeaderAction::Wait
        } else {
            LeaderAction::Start
        },
        LeaderEvent::Follows => if running {
            LeaderAction::Stop
        } else {
            LeaderAction::Wait
        },
        LeaderEvent::Closed => LeaderAction::Leave,
    }
}

/// Whether the controllers run once a server has learned whether it leads.
pub open spec fn gate_after(running: bool, event: LeaderEvent) -> bool {
    match event {
        LeaderEvent::Leads => true,
        LeaderEvent::Follows => false,
        LeaderEvent::Closed => running,
    }
}

impl LeaderGate {
    /// A gate with nothing running.
    pub fn new() -> (r: Self)
        ensures
            !r.running,
    {
        LeaderGate { running: false }
    }

    /// Takes in whether the server leads and decides on the controllers.
    pub fn observe(&mut self, event: LeaderEvent) -> (r: LeaderAction)
        ensures
            r == gate_action(old(self).running, event),
            final(self).running == gate_after(old(self).running, event),
    {
        match event {
            LeaderEvent::Leads => {
                let was: bool = self.running;
                self.running = true;
                if was {
                    LeaderAction::Wait
                } else {
                    LeaderAction::Start
                }
            },
            LeaderEvent::Follows => {
                let was: bool = self.running;
                self.running = false;
                if was {
                    LeaderAction::Stop
                } else {
                    LeaderAction::Wait
                }
            },
            LeaderEvent::Closed => LeaderAction::Leave,
        }
    }
}

/// Controllers are never started twice in a row nor stopped twice in a row.
pub proof fn law_gate_alternates(running: bool, event: LeaderEvent)
    ensures
        gate_action(running, event) == LeaderAction::Start ==> !running,
        gate_action(running, event) == LeaderAction::Stop ==> running,
{
}

/// A controller makes a pass for every change that it watches, and for no other.
pub proof fn law_changes_are_watched(key: String, prefixes: Seq<Seq<char>>)
    ensures
        wake_action(WakeEvent::Change(key), prefixes) != WakeAction::Wait <==> under_any(
            key@,
            prefixes,
        ),
{
}

/// On a tick a controller makes a pass; on a change it makes one exactly where the
/// key begins with a prefix that it watches, and starts its interval anew; after
/// missed events it makes one whatever has changed; and without further events it
/// ends.
pub proof fn law_events_lead_to_passes(event: WakeEvent, prefixes: Vec<&str>, r: WakeAction)
    requires
        call_ensures(on_event, (&event, &prefixes), r),
    ensures
        event is Tick ==> r == WakeAction::Pass,
        event is Lagged ==> r == (WakeAction::PassAndReset { drain: false }),
        event is Closed ==> r == WakeAction::Stop,
        event matches WakeEvent::Change(key) ==> {
            let watched = exists|i: int|
                0 <= i < prefixes.len() && (#[trigger] prefixes[i])@.len() <= key@.len()
                    && key@.take(prefixes[i]@.len() as int) == prefixes[i]@;
            &&& watched ==> r == (WakeAction::PassAndReset { drain: true })
            &&& !watched ==> r == WakeAction::Wait
        },
{
    match event {
        WakeEvent::Change(key) => {
            let all = prefixes.deep_view();
            assert forall|i: int| 0 <= i < prefixes.len() implies (has_prefix(
                key@,
                #[trigger] all[i],
            ) <==> prefixes[i]@.len() <= key@.len() && key@.take(prefixes[i]@.len() as int)
                == prefixes[i]@) by {
                let p = prefixes[i]@;
                assert(all[i] == p);
                if p.len() <= key@.len() {
                    assert(key@.take(p.len() as int) =~= key@.subrange(0, p.len() as int));
                }
            }
            if exists|i: int|
                0 <= i < prefixes.len() && (#[trigger] prefixes[i])@.len() <= key@.len()
                    && key@.take(prefixes[i]@.len() as int) == prefixes[i]@ {
                let i = choose|i: int|
                    0 <= i < prefixes.len() && (#[trigger] prefixes[i])@.len() <= key@.len()
                        && key@.take(prefixes[i]@.len() as int) == prefixes[i]@;
                assert(has_prefix(key@, all[i]));
                assert(under_any(key@, all));
            } else {
                assert(!under_any(key@, all)) by {
                    if under_any(key@, all) {
                        let i = choose|i: int| 0 <= i < all.len() && has_prefix(key@, #[trigger] all[i]);
                        assert(prefixes[i]@.len() <= key@.len());
                    }
                }
            }
        },
        _ => {},
    }
}

/// Controllers start when a server comes to lead and stop when it ceases to;
/// otherwise nothing becomes of them, and at the end the server leaves.
pub proof fn law_leader_runs_controllers(running: bool)
    ensures
        gate_action(false, LeaderEvent::Leads) == LeaderAction::Start,
        gate_action(true, LeaderEvent::Follows) == LeaderAction::Stop,
        gate_action(true, LeaderEvent::Leads) == LeaderAction::Wait,
        gate_action(false, LeaderEvent::Follows) == LeaderAction::Wait,
        gate_action(running, LeaderEvent::Closed) == LeaderAction::Leave,
        forall|event: LeaderEvent| #[trigger] gate_action(running, event) == LeaderAction::Start
            ==> gate_after(running, event),
        forall|event: LeaderEvent| #[trigger] gate_action(running, event) == LeaderAction::Stop
            ==> !gate_after(running, event),
        forall|event: LeaderEvent| #[trigger] gate_action(running, event) != LeaderAction::Start
            && gate_action(running, event) != LeaderAction::Stop ==> gate_after(running, event)
            == running,
{
}

/// Controllers run exactly while the server leads: they are started once when it
/// comes to lead and stopped once when it ceases to.
pub proof fn law_controllers_follow_the_leader(g: &mut LeaderGate, event: LeaderEvent, r: LeaderAction)
    requires
        call_ensures(LeaderGate::observe, (g, event), r),
    ensures
        event == LeaderEvent::Leads ==> final(g).running,
        event == LeaderEvent::Follows ==> !final(g).running,
        event == LeaderEvent::Closed ==> final(g).running == old(g).running && r
            == LeaderAction::Leave,
        r == LeaderAction::Start <==> !old(g).running && final(g).running,
        r == LeaderAction::Stop <==> old(g).running && !final(g).running,
        event != LeaderEvent::Closed && final(g).running == old(g).running ==> r
            == LeaderAction::Wait,
{
}

} // verus!
