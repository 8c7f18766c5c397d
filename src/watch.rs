use vstd::prelude::*;
use crate::entry::FsError;

verus! {

/// What one poll found at a watched path: nothing (or an error reading it),
/// or a file with this modification time, in nanoseconds from the epoch.
#[derive(Clone, Copy, Debug, PartialEq, Eq, Structural)]
pub enum Observation {
    Missing,
    Present(i128),
}

/// The kind of an outside change to a watched file.
#[derive(Clone, Copy, Debug, PartialEq, Eq, Structural)]
pub enum ChangeKind {
    Modified,
    Removed,
}

impl ChangeKind {
    /// The word the event carries to the user interface.
    pub fn as_str(&self) -> (r: &'static str)
        ensures
            r@ == match self {
                ChangeKind::Modified => "modified"@,
                ChangeKind::Removed => "removed"@,
            },
    {
        match self {
            ChangeKind::Modified => "modified",
            ChangeKind::Removed => "removed",
        }
    }
}

/// An outside change to a watched path, as handed to the event sink.
#[derive(Clone, Debug, PartialEq, Eq)]
pub struct ChangeEvent {
    pub path: String,
    pub kind: ChangeKind,
}

/// The memory of one poller: whether it still runs, and what it saw last.
#[derive(Clone, Copy, Debug, PartialEq, Eq, Structural)]
pub struct WatchWorker {
    pub active: bool,
    pub last_existed: bool,
    pub last_modified: Option<i128>,
}

/// The memory that an observation leaves, whatever it was before.
pub open spec fn remembered(active: bool, obs: Observation) -> WatchWorker {
    match obs {
        Observation::Missing => WatchWorker { active, last_existed: false, last_modified: None },
        Observation::Present(t) => WatchWorker { active, last_existed: true, last_modified: Some(t) },
    }
}

/// The event that an observation raises: a removal of what existed, or a new
/// modification time of what existed. An appearance raises nothing.
pub open spec fn change_on(w: WatchWorker, obs: Observation) -> Option<ChangeKind> {
    if !w.active {
        None
    } else {
        match obs {
            Observation::Missing => if w.last_existed {
                Some(ChangeKind::Removed)
            } else {
                None
            },
            Observation::Present(t) => if w.last_existed && w.last_modified != Some(t) {
                Some(ChangeKind::Modified)
            } else {
                None
            },
        }
    }
}

/// The memory after an observation; a stopped poller keeps its own.
pub open spec fn after(w: WatchWorker, obs: Observation) -> WatchWorker {
    if w.active {
        remembered(true, obs)
    } else {
        w
    }
}

impl WatchWorker {
    /// A running poller seeded from what was at the path when it started.
    /// Seeding raises no event.
    pub fn new(first: Observation) -> (r: WatchWorker)
        ensures
            r == remembered(true, first),
    {
        match first {
            Observation::Missing => WatchWorker { active: true, last_existed: false, last_modified: None },
            Observation::Present(t) => WatchWorker {
                active: true,
                last_existed: true,
                last_modified: Some(t),
            },
        }
    }

    /// The check at the top of each tick: a raised cancellation flag stops
    /// the poller for good. Returns whether it is to poll this tick.
    pub fn keep_polling(&mut self, cancelled: bool) -> (r: bool)
        ensures
            final(self).active == (old(self).active && !cancelled),
            final(self).last_existed == old(self).last_existed,
            final(self).last_modified == old(self).last_modified,
            r == final(self).active,
    {
        if cancelled {
            self.active = false;
        }
        self.active
    }

    /// Takes in one poll's observation and returns the event it raises.
    pub fn observe(&mut self, obs: Observation) -> (r: Option<ChangeKind>)
        ensures
            r == change_on(*old(self), obs),
            *final(self) == after(*old(self), obs),
    {
        if !self.active {
            return None;
        }
        let event = match obs {
            Observation::Missing => if self.last_existed {
                Some(ChangeKind::Removed)
            } else {
                None
            },
            Observation::Present(t) => {
                let same = match self.last_modified {
                    Some(m) => m == t,
                    None => false,
                };
                if self.last_existed && !same {
                    Some(ChangeKind::Modified)
                } else {
                    None
                }
            },
        };
        match obs {
            Observation::Missing => {
                self.last_existed = false;
                self.last_modified = None;
            },
            Observation::Present(t) => {
                self.last_existed = true;
                self.last_modified = Some(t);
            },
        }
        event
    }
}

/// A poller reports each change once: observing the same thing again right
/// after raises no event, whatever the memory was.
pub proof fn repeat_observation_is_quiet(w: WatchWorker, obs: Observation)
    ensures
        change_on(after(w, obs), obs) is None,
{
}

/// The life of a watch on a file: seeded from modification time `t0`, an
/// unchanged poll raises nothing; a new time `t1` raises one `Modified`; the
/// file's removal raises one `Removed`; its return at any time `t2` raises
/// nothing; a later time `t3` raises `Modified` again; and once the flag is
/// raised, no observation raises anything.
pub proof fn watch_transitions(t0: i128, t1: i128, t2: i128, t3: i128, later: Observation)
    requires
        t0 != t1,
        t2 != t3,
    ensures
        ({
            let w0 = remembered(true, Observation::Present(t0));
            let w1 = after(w0, Observation::Present(t0));
            let w2 = after(w1, Observation::Present(t1));
            let w3 = after(w2, Observation::Present(t1));
            let w4 = after(w3, Observation::Missing);
            let w5 = after(w4, Observation::Missing);
            let w6 = after(w5, Observation::Present(t2));
            let stopped = WatchWorker { active: false, ..w6 };
            &&& change_on(w0, Observation::Present(t0)) is None
            &&& change_on(w1, Observation::Present(t1)) == Some(ChangeKind::Modified)
            &&& change_on(w2, Observation::Present(t1)) is None
            &&& change_on(w3, Observation::Missing) == Some(ChangeKind::Removed)
            &&& change_on(w4, Observation::Missing) is None
            &&& change_on(w5, Observation::Present(t2)) is None
            &&& change_on(w6, Observation::Present(t3)) == Some(ChangeKind::Modified)
            &&& change_on(stopped, later) is None
            &&& after(stopped, later) == stopped
        }),
{
}

/// A path with the cancellation flag of its poller.
pub type WatchSlot<F> = (Seq<char>, F);

/// `p` has an entry.
pub open spec fn watched<F>(s: Seq<WatchSlot<F>>, p: Seq<char>) -> bool {
    exists|i: int| 0 <= i < s.len() && s[i].0 == p
}

/// No path has two entries.
pub open spec fn keys_unique<F>(s: Seq<WatchSlot<F>>) -> bool {
    forall|i: int, j: int| 0 <= i < s.len() && 0 <= j < s.len() && s[i].0 == s[j].0 ==> i == j
}

/// Where `p`'s entry stands.
pub open spec fn slot_of<F>(s: Seq<WatchSlot<F>>, p: Seq<char>) -> int {
    choose|i: int| 0 <= i < s.len() && s[i].0 == p
}

/// The entries after a start of `p` with a new flag: unchanged where `p` is
/// already watched, else with `p` added.
pub open spec fn started<F>(s: Seq<WatchSlot<F>>, p: Seq<char>, flag: F) -> Seq<WatchSlot<F>> {
    if watched(s, p) {
        s
    } else {
        s.push((p, flag))
    }
}

/// The entries after a stop of `p`: its entry gone, the others kept in order.
pub open spec fn stopped<F>(s: Seq<WatchSlot<F>>, p: Seq<char>) -> Seq<WatchSlot<F>> {
    if watched(s, p) {
        s.remove(slot_of(s, p))
    } else {
        s
    }
}

/// The set of active watches: for each watched path, the cancellation flag
/// shared with its one poller. Paths are unique.
pub struct WatchRegistry<F> {
    entries: Vec<(String, F)>,
}

impl<F> View for WatchRegistry<F> {
    type V = Seq<WatchSlot<F>>;

    closed spec fn view(&self) -> Seq<WatchSlot<F>> {
        self.entries@.map_values(|e: (String, F)| (e.0@, e.1))
    }
}

impl<F> WatchRegistry<F> {
    /// No path is watched twice.
    pub open spec fn wf(&self) -> bool {
        keys_unique(self@)
    }

    /// A registry with no watches.
    pub fn new() -> (r: WatchRegistry<F>)
        ensures
            r.wf(),
            r@ == Seq::<WatchSlot<F>>::empty(),
    {
        let r = WatchRegistry { entries: Vec::new() };
        proof {
            assert(r@ =~= Seq::<WatchSlot<F>>::empty());
        }
        r
    }

    /// How many paths are watched.
    pub fn len(&self) -> (r: usize)
        ensures
            r == self@.len(),
    {
        self.entries.len()
    }

    /// Where `path`'s entry stands, if it has one.
    fn find(&self, path: &str) -> (r: Option<usize>)
        requires
            self.wf(),
        ensures
            match r {
                Some(i) => i < self@.len() && self@[i as int].0 == path@ && slot_of(self@, path@) == i,
                None => !watched(self@, path@),
            },
    {
        let n = self.entries.len();
        let mut i: usize = 0;
        while i < n
            invariant
                n == self.entries@.len(),
                self.wf(),
                i <= n,
                forall|j: int| 0 <= j < i ==> self@[j].0 != path@,
            decreases n - i,
        {
            if self.entries[i].0.as_str().len() == path.len() && crate::path::same_chars(
                self.entries[i].0.as_str(),
                path,
            ) {
                proof {
                    assert(self@[i as int].0 == path@);
                    assert(watched(self@, path@));
                    let j = slot_of(self@, path@);
                    assert(self@[j].0 == path@);
                }
                return Some(i);
            }
            i += 1;
        }
        None
    }

    /// Whether `path` is watched.
    pub fn is_watching(&self, path: &str) -> (r: bool)
        requires
            self.wf(),
        ensures
            r == watched(self@, path@),
    {
        self.find(path).is_some()
    }

    /// Registers a watch of `path` with a fresh, unraised `flag`, given
    /// whether the path exists. A watched path is left as it is and gives
    /// `Ok(false)`: no second poller is to start. Else a path that does not
    /// exist gives `NotFound`, and one that does is added and gives
    /// `Ok(true)`: its poller is to start, bound to `flag`.
    pub fn start(&mut self, path: &str, exists: bool, flag: F) -> (r: Result<bool, FsError>)
        requires
            old(self).wf(),
        ensures
            final(self).wf(),
            watched(old(self)@, path@) ==> r == Ok::<bool, FsError>(false) && final(self)@ == old(self)@,
            !watched(old(self)@, path@) && !exists ==> r == Err::<bool, FsError>(FsError::NotFound)
                && final(self)@ == old(self)@,
            !watched(old(self)@, path@) && exists ==> r == Ok::<bool, FsError>(true) && final(self)@
                == started(old(self)@, path@, flag),
            watched(final(self)@, path@) == (watched(old(self)@, path@) || exists),
    {
        if self.find(path).is_some() {
            return Ok(false);
        }
        if !exists {
            return Err(FsError::NotFound);
        }
        let ghost before = self@;
        self.entries.push((path.to_string(), flag));
        proof {
            assert(self@ =~= before.push((path@, flag)));
            assert(self@[before.len() as int].0 == path@);
        }
        Ok(true)
    }

    /// Removes `path`'s watch and hands back its flag, for the caller to
    /// raise; `None` where the path was not watched.
    pub fn stop(&mut self, path: &str) -> (r: Option<F>)
        requires
            old(self).wf(),
        ensures
            final(self).wf(),
            final(self)@ == stopped(old(self)@, path@),
            r == if watched(old(self)@, path@) {
                Some(old(self)@[slot_of(old(self)@, path@)].1)
            } else {
                None::<F>
            },
            !watched(final(self)@, path@),
    {
        match self.find(path) {
            Some(i) => {
                let ghost before = self@;
                let (_, flag) = self.entries.remove(i);
                proof {
                    assert(self@ =~= before.remove(i as int));
                }
                Some(flag)
            },
            None => None,
        }
    }

    /// Empties the registry and hands back every flag, last entry first.
    pub fn stop_all(&mut self) -> (r: Vec<F>)
        ensures
            final(self).wf(),
            final(self)@ == Seq::<WatchSlot<F>>::empty(),
            r@.len() == old(self)@.len(),
            forall|i: int| 0 <= i < r@.len() ==> r@[i] == old(self)@[old(self)@.len() - 1 - i].1,
    {
        let mut drained: Vec<(String, F)> = Vec::new();
        core::mem::swap(&mut self.entries, &mut drained);
        let ghost all = drained@;
        let mut flags: Vec<F> = Vec::new();
        while drained.len() > 0
            invariant
                drained@ == all.subrange(0, all.len() - flags@.len()),
                flags@.len() <= all.len(),
                forall|i: int| 0 <= i < flags@.len() ==> flags@[i] == all[all.len() - 1 - i].1,
            decreases drained.len(),
        {
            let (_, flag) = drained.pop().unwrap();
            flags.push(flag);
        }
        proof {
            assert(self@ =~= Seq::<WatchSlot<F>>::empty());
        }
        flags
    }
}

/// Starting a watch twice leaves one entry, and one stop then ends the
/// watch: no poller remains registered for the path.
pub proof fn start_is_idempotent<F>(s: Seq<WatchSlot<F>>, p: Seq<char>, first: F, second: F)
    requires
        keys_unique(s),
    ensures
        started(started(s, p, first), p, second) == started(s, p, first),
        watched(started(s, p, first), p),
        !watched(stopped(started(started(s, p, first), p, second), p), p),
{
    let s1 = started(s, p, first);
    if !watched(s, p) {
        assert(s1[s.len() as int].0 == p);
    }
    let i = slot_of(s1, p);
    assert(keys_unique(s1));
    let s2 = s1.remove(i);
    assert forall|j: int| 0 <= j < s2.len() implies s2[j].0 != p by {
        if j < i {
            assert(s2[j] == s1[j]);
        } else {
            assert(s2[j] == s1[j + 1]);
        }
    }
}

} // verus!
