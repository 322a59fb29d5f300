//! Followers notice a restore by its epoch.
use vstd::prelude::*;
use vstd::string::*;
use crate::text::{clone_opt, opt_is};

verus! {

/// Watches the epoch of restores.
#[derive(Debug)]
pub struct RestoreWatcher {
    /// The epoch that was seen last.
    pub last_epoch: Option<String>,
}

/// Whether an epoch that was read tells of a restore.
pub open spec fn tells_restore(
    last: Option<Seq<char>>,
    restore_in_progress: bool,
    current: Option<Seq<char>>,
) -> bool {
    !restore_in_progress && current is Some && current != last
}

/// The epoch that was seen last, once another was read: it changes only where it
/// tells of a restore.
pub open spec fn epoch_after(
    last: Option<Seq<char>>,
    restore_in_progress: bool,
    current: Option<Seq<char>>,
) -> Option<Seq<char>> {
    if tells_restore(last, restore_in_progress, current) {
        current
    } else {
        last
    }
}

impl RestoreWatcher {
    /// A watcher that starts from an epoch.
    pub fn new(initial: Option<String>) -> (r: Self)
        ensures
            r.last_epoch.deep_view() == initial.deep_view(),
    {
        RestoreWatcher { last_epoch: initial }
    }

    /// Takes in an epoch that was read and says whether it tells of a restore:
    /// it is there and differs from the last one. Nothing is taken in while a
    /// restore is in progress.
    pub fn observe(&mut self, restore_in_progress: bool, current: Option<String>) -> (r: bool)
        ensures
            r == tells_restore(
                old(self).last_epoch.deep_view(),
                restore_in_progress,
                current.deep_view(),
            ),
            final(self).last_epoch.deep_view() == epoch_after(
                old(self).last_epoch.deep_view(),
                restore_in_progress,
                current.deep_view(),
            ),
    {
        if restore_in_progress {
            return false;
        }
        match &current {
            Some(c) => {
                if opt_is(&self.last_epoch, c.as_str()) {
                    false
                } else {
                    self.last_epoch = clone_opt(&current);
                    true
                }
            },
            None => false,
        }
    }
}

/// A restore is noticed once: its epoch tells nothing the second time.
pub proof fn law_restore_is_noticed_once(
    last: Option<Seq<char>>,
    current: Option<Seq<char>>,
    in_progress: bool,
)
    requires
        tells_restore(last, false, current),
    ensures
        !tells_restore(current, in_progress, current),
{
}

/// A restore is noticed exactly when an epoch is there that is not the last one
/// seen, and no restore is in progress.
pub proof fn law_new_epoch_is_noticed(
    last: Option<Seq<char>>,
    epoch: Seq<char>,
)
    ensures
        last != Some(epoch) ==> tells_restore(last, false, Some(epoch)),
        !tells_restore(Some(epoch), false, Some(epoch)),
        !tells_restore(last, true, Some(epoch)),
        !tells_restore(last, false, None),
        !tells_restore(last, true, None),
        epoch_after(last, false, Some(epoch)) == Some(epoch),
        epoch_after(last, true, Some(epoch)) == last,
        epoch_after(last, false, None) == last,
        epoch_after(last, true, None) == last,
        !tells_restore(epoch_after(last, false, Some(epoch)), false, Some(epoch)),
{
}

/// A watcher tells of a restore exactly where it reads an epoch that it did not see
/// last and no restore is in progress; it then remembers that epoch, and otherwise
/// the one that it knew.
pub proof fn law_watcher_tells_once(
    w: &mut RestoreWatcher,
    in_progress: bool,
    current: Option<String>,
    r: bool,
)
    requires
        call_ensures(RestoreWatcher::observe, (w, in_progress, current), r),
    ensures
        r <==> !in_progress && current is Some && old(w).last_epoch.deep_view()
            != current.deep_view(),
        r ==> final(w).last_epoch.deep_view() == current.deep_view(),
        !r ==> final(w).last_epoch.deep_view() == old(w).last_epoch.deep_view(),
{
}

} // verus!
