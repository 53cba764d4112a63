//! The teammate registry: each persistent teammate by name, with its role,
//! lifecycle phase, session and whether it was asked to shut down.

use vstd::prelude::*;

use crate::text::{owned, str_eq, views};

verus! {

/// The lifecycle phase of a teammate.
#[derive(Debug, Clone, Copy, PartialEq, Eq, Structural)]
pub enum TeammatePhase {
    Work,
    Idle,
    Shutdown,
}

/// What is shown of a teammate.
#[derive(Debug, Clone)]
pub struct TeammateInfo {
    pub name: String,
    pub role: String,
    pub phase: TeammatePhase,
    pub session_id: String,
}

/// A registered teammate: its information and its shutdown request flag.
#[derive(Debug, Clone)]
pub struct TeammateHandle {
    pub info: TeammateInfo,
    pub shutdown: bool,
}

/// The value of a teammate.
pub struct TeammateView {
    pub name: Seq<char>,
    pub role: Seq<char>,
    pub phase: TeammatePhase,
    pub session_id: Seq<char>,
    pub shutdown: bool,
}

impl View for TeammateHandle {
    type V = TeammateView;

    open spec fn view(&self) -> TeammateView {
        TeammateView {
            name: self.info.name@,
            role: self.info.role@,
            phase: self.info.phase,
            session_id: self.info.session_id@,
            shutdown: self.shutdown,
        }
    }
}

impl TeammateInfo {
    /// A copy of this information.
    pub fn duplicate(&self) -> (r: TeammateInfo)
        ensures
            r.name@ == self.name@,
            r.role@ == self.role@,
            r.phase == self.phase,
            r.session_id@ == self.session_id@,
    {
        TeammateInfo {
            name: self.name.clone(),
            role: self.role.clone(),
            phase: self.phase,
            session_id: self.session_id.clone(),
        }
    }
}

impl TeammateHandle {
    /// A copy of this handle.
    pub fn duplicate(&self) -> (r: TeammateHandle)
        ensures
            r@ == self@,
    {
        TeammateHandle { info: self.info.duplicate(), shutdown: self.shutdown }
    }
}

/// The values of a list of teammates.
pub open spec fn mates_view(v: Seq<TeammateHandle>) -> Seq<TeammateView> {
    v.map_values(|h: TeammateHandle| h@)
}

/// The teammates, each name at most once.
pub struct TeamRegistry {
    members: Vec<TeammateHandle>,
}

impl TeamRegistry {
    /// The teammates as a map from name.
    pub closed spec fn entries(&self) -> Seq<TeammateView> {
        mates_view(self.members@)
    }

    /// The teammates by name.
    pub open spec fn members_map(&self) -> Map<Seq<char>, TeammateView> {
        Map::new(
            |n: Seq<char>| exists|i: int| 0 <= i < self.entries().len() && #[trigger] self.entries()[i].name == n,
            |n: Seq<char>| self.entries()[choose|i: int| 0 <= i < self.entries().len() && #[trigger] self.entries()[i].name == n],
        )
    }

    /// Names are unique.
    pub open spec fn wf(&self) -> bool {
        forall|a: int, b: int|
            0 <= a < self.entries().len() && 0 <= b < self.entries().len() && a != b
                ==> self.entries()[a].name != self.entries()[b].name
    }

    /// An empty registry.
    pub fn new() -> (r: TeamRegistry)
        ensures
            r.wf(),
            r.members_map() == Map::<Seq<char>, TeammateView>::empty(),
    {
        let r = TeamRegistry { members: Vec::new() };
        assert(r.members_map() =~= Map::<Seq<char>, TeammateView>::empty());
        r
    }

    fn find(&self, name: &str) -> (r: Option<usize>)
        requires
            self.wf(),
        ensures
            match r {
                Some(i) => i < self.entries().len() && self.entries()[i as int].name == name@,
                None => !self.members_map().contains_key(name@),
            },
    {
        let mut i: usize = 0;
        while i < self.members.len()
            invariant
                i <= self.members@.len(),
                forall|k: int| 0 <= k < i ==> (#[trigger] self.entries()[k]).name != name@,
            decreases self.members@.len() - i,
        {
            if str_eq(self.members[i].info.name.as_str(), name) {
                return Some(i);
            }
            i += 1;
        }
        None
    }

    proof fn lemma_lookup(&self, i: int)
        requires
            self.wf(),
            0 <= i < self.entries().len(),
        ensures
            self.members_map().contains_key(self.entries()[i].name),
            self.members_map()[self.entries()[i].name] == self.entries()[i],
    {
        let n = self.entries()[i].name;
        assert(self.entries()[i].name == n);
        let c = choose|k: int| 0 <= k < self.entries().len() && #[trigger] self.entries()[k].name == n;
        assert(c == i);
    }

    /// Registers teammate `name` working in session `session_id` (replacing a
    /// teammate of that name) and returns its handle.
    pub fn register(&mut self, name: &str, role: &str, session_id: &str) -> (r: TeammateHandle)
        requires
            old(self).wf(),
        ensures
            final(self).wf(),
            r@ == (TeammateView {
                name: name@,
                role: role@,
                phase: TeammatePhase::Work,
                session_id: session_id@,
                shutdown: false,
            }),
            final(self).members_map() == old(self).members_map().insert(name@, r@),
    {
        let h = TeammateHandle {
            info: TeammateInfo {
                name: owned(name),
                role: owned(role),
                phase: TeammatePhase::Work,
                session_id: owned(session_id),
            },
            shutdown: false,
        };
        let ghost hv = h@;
        let out = h.duplicate();
        let ghost pre = self.entries();
        match self.find(name) {
            Some(i) => {
                self.members.set(i, h);
                assert(self.entries() =~= pre.update(i as int, hv));
            },
            None => {
                self.members.push(h);
                assert(self.entries() =~= pre.push(hv));
            },
        }
        proof {
            assert forall|n: Seq<char>| #![auto]
                self.members_map().contains_key(n) == old(self).members_map().insert(
                    name@,
                    hv,
                ).contains_key(n) by {
                if self.members_map().contains_key(n) {
                    let k = choose|k: int| 0 <= k < self.entries().len() && #[trigger] self.entries()[k].name == n;
                    if n != name@ {
                        assert(pre[k].name == n);
                    }
                }
                if old(self).members_map().contains_key(n) {
                    let k = choose|k: int| 0 <= k < pre.len() && #[trigger] pre[k].name == n;
                    if n != name@ {
                        assert(self.entries()[k].name == n);
                    }
                }
                if n == name@ {
                    let k = if pre.len() < self.entries().len() { pre.len() as int } else {
                        choose|k: int| 0 <= k < pre.len() && #[trigger] pre[k].name == n
                    };
                    assert(self.entries()[k].name == n);
                }
            }
            assert forall|n: Seq<char>| #[trigger] self.members_map().contains_key(n) implies self.members_map()[n]
                == old(self).members_map().insert(name@, hv)[n] by {
                let k = choose|k: int| 0 <= k < self.entries().len() && #[trigger] self.entries()[k].name == n;
                self.lemma_lookup(k);
                if n != name@ {
                    assert(pre[k] == self.entries()[k]);
                    old(self).lemma_lookup(k);
                }
            }
            assert(self.members_map() =~= old(self).members_map().insert(name@, hv));
        }
        out
    }

    /// The teammate named `name`.
    pub fn get(&self, name: &str) -> (r: Option<TeammateHandle>)
        requires
            self.wf(),
        ensures
            match r {
                Some(h) => self.members_map().contains_key(name@) && h@ == self.members_map()[name@],
                None => !self.members_map().contains_key(name@),
            },
    {
        match self.find(name) {
            Some(i) => {
                proof {
                    self.lemma_lookup(i as int);
                }
                Some(self.members[i].duplicate())
            },
            None => None,
        }
    }

    /// Whether teammate `name` was asked to shut down.
    pub fn shutdown_requested(&self, name: &str) -> (r: bool)
        requires
            self.wf(),
        ensures
            r == (self.members_map().contains_key(name@) && self.members_map()[name@].shutdown),
    {
        match self.find(name) {
            Some(i) => {
                proof {
                    self.lemma_lookup(i as int);
                }
                self.members[i].shutdown
            },
            None => false,
        }
    }

    /// Sets the phase of teammate `name`, if registered.
    pub fn set_phase(&mut self, name: &str, phase: TeammatePhase)
        requires
            old(self).wf(),
        ensures
            final(self).wf(),
            old(self).members_map().contains_key(name@) ==> final(self).members_map() == old(
                self,
            ).members_map().insert(name@, TeammateView { phase, ..old(self).members_map()[name@] }),
            !old(self).members_map().contains_key(name@) ==> final(self).members_map() == old(
                self,
            ).members_map(),
    {
        match self.find(name) {
            Some(i) => {
                proof {
                    self.lemma_lookup(i as int);
                }
                let mut h = self.members[i].duplicate();
                h.info.phase = phase;
                let ghost hv = h@;
                let ghost pre = self.entries();
                self.members.set(i, h);
                assert(self.entries() =~= pre.update(i as int, hv));
                proof {
                    self.lemma_replace(old(self), i as int);
                }
            },
            None => {},
        }
    }

    proof fn lemma_replace(&self, before: &TeamRegistry, i: int)
        requires
            before.wf(),
            0 <= i < before.entries().len(),
            self.entries() == before.entries().update(i, self.entries()[i]),
            self.entries()[i].name == before.entries()[i].name,
        ensures
            self.wf(),
            self.members_map() == before.members_map().insert(
                before.entries()[i].name,
                self.entries()[i],
            ),
    {
        let n0 = before.entries()[i].name;
        assert forall|n: Seq<char>| #![auto]
            self.members_map().contains_key(n) == before.members_map().contains_key(n) by {
            if self.members_map().contains_key(n) {
                let k = choose|k: int| 0 <= k < self.entries().len() && #[trigger] self.entries()[k].name == n;
                assert(before.entries()[k].name == n);
            }
            if before.members_map().contains_key(n) {
                let k = choose|k: int| 0 <= k < before.entries().len() && #[trigger] before.entries()[k].name == n;
                assert(self.entries()[k].name == n);
            }
        }
        before.lemma_lookup(i);
        assert forall|n: Seq<char>| #[trigger] self.members_map().contains_key(n) implies self.members_map()[n]
            == before.members_map().insert(n0, self.entries()[i])[n] by {
            let k = choose|k: int| 0 <= k < self.entries().len() && #[trigger] self.entries()[k].name == n;
            self.lemma_lookup(k);
            if n != n0 {
                before.lemma_lookup(k);
            }
        }
        assert(self.members_map() =~= before.members_map().insert(n0, self.entries()[i]));
    }

    /// Asks teammate `name` to shut down; false when there is none.
    pub fn request_shutdown(&mut self, name: &str) -> (r: bool)
        requires
            old(self).wf(),
        ensures
            final(self).wf(),
            r == old(self).members_map().contains_key(name@),
            r ==> final(self).members_map() == old(self).members_map().insert(
                name@,
                TeammateView { shutdown: true, ..old(self).members_map()[name@] },
            ),
            !r ==> final(self).members_map() == old(self).members_map(),
    {
        match self.find(name) {
            Some(i) => {
                proof {
                    self.lemma_lookup(i as int);
                }
                let mut h = self.members[i].duplicate();
                h.shutdown = true;
                let ghost hv = h@;
                let ghost pre = self.entries();
                self.members.set(i, h);
                assert(self.entries() =~= pre.update(i as int, hv));
                proof {
                    self.lemma_replace(old(self), i as int);
                }
                true
            },
            None => false,
        }
    }

    /// Removes teammate `name`.
    pub fn remove(&mut self, name: &str)
        requires
            old(self).wf(),
        ensures
            final(self).wf(),
            final(self).members_map() == old(self).members_map().remove(name@),
    {
        match self.find(name) {
            Some(i) => {
                let ghost pre = self.entries();
                self.members.remove(i);
                assert(self.entries() =~= pre.remove(i as int));
                proof {
                    assert forall|n: Seq<char>| #![auto]
                        self.members_map().contains_key(n) == old(self).members_map().remove(
                            name@,
                        ).contains_key(n) by {
                        if self.members_map().contains_key(n) {
                            let k = choose|k: int| 0 <= k < self.entries().len() && #[trigger] self.entries()[k].name == n;
                            if k < i {
                                assert(pre[k].name == n);
                            } else {
                                assert(pre[k + 1].name == n);
                            }
                        }
                        if old(self).members_map().contains_key(n) && n != name@ {
                            let k = choose|k: int| 0 <= k < pre.len() && #[trigger] pre[k].name == n;
                            if k < i {
                                assert(self.entries()[k].name == n);
                            } else {
                                assert(self.entries()[k - 1].name == n);
                            }
                        }
                    }
                    assert forall|n: Seq<char>| #[trigger] self.members_map().contains_key(n) implies self.members_map()[n]
                        == old(self).members_map()[n] by {
                        let k = choose|k: int| 0 <= k < self.entries().len() && #[trigger] self.entries()[k].name == n;
                        self.lemma_lookup(k);
                        if k < i {
                            old(self).lemma_lookup(k);
                        } else {
                            old(self).lemma_lookup(k + 1);
                        }
                    }
                    assert(self.members_map() =~= old(self).members_map().remove(name@));
                }
            },
            None => {
                assert(old(self).members_map().remove(name@) =~= old(self).members_map());
            },
        }
    }

    /// The information of every teammate.
    pub fn list(&self) -> (r: Vec<TeammateInfo>)
        requires
            self.wf(),
        ensures
            r@.len() == self.entries().len(),
            forall|i: int| 0 <= i < r@.len() ==> {
                let v = #[trigger] r@[i];
                &&& self.members_map().contains_key(v.name@)
                &&& self.members_map()[v.name@].role == v.role@
                &&& self.members_map()[v.name@].phase == v.phase
                &&& self.members_map()[v.name@].session_id == v.session_id@
            },
            forall|n: Seq<char>| #[trigger] self.members_map().contains_key(n) ==> exists|i: int|
                0 <= i < r@.len() && r@[i].name@ == n,
    {
        let mut out: Vec<TeammateInfo> = Vec::new();
        let mut i: usize = 0;
        while i < self.members.len()
            invariant
                i <= self.members@.len(),
                self.wf(),
                out@.len() == i,
                forall|k: int| 0 <= k < i ==> {
                    let v = #[trigger] out@[k];
                    &&& v.name@ == self.entries()[k].name
                    &&& v.role@ == self.entries()[k].role
                    &&& v.phase == self.entries()[k].phase
                    &&& v.session_id@ == self.entries()[k].session_id
                },
            decreases self.members@.len() - i,
        {
            out.push(self.members[i].info.duplicate());
            i += 1;
        }
        proof {
            assert forall|k: int| 0 <= k < out@.len() implies {
                let v = #[trigger] out@[k];
                &&& self.members_map().contains_key(v.name@)
                &&& self.members_map()[v.name@].role == v.role@
                &&& self.members_map()[v.name@].phase == v.phase
                &&& self.members_map()[v.name@].session_id == v.session_id@
            } by {
                self.lemma_lookup(k);
            }
            assert forall|n: Seq<char>| #[trigger] self.members_map().contains_key(n) implies exists|k: int|
                0 <= k < out@.len() && out@[k].name@ == n by {
                let k = choose|k: int| 0 <= k < self.entries().len() && #[trigger] self.entries()[k].name == n;
                assert(out@[k].name@ == n);
            }
        }
        out
    }

    /// The names of all teammates.
    pub fn names(&self) -> (r: Vec<String>)
        requires
            self.wf(),
        ensures
            views(r@).to_set() == self.members_map().dom(),
            views(r@).no_duplicates(),
    {
        let mut out: Vec<String> = Vec::new();
        let mut i: usize = 0;
        while i < self.members.len()
            invariant
                i <= self.members@.len(),
                views(out@) == self.entries().take(i as int).map_values(|v: TeammateView| v.name),
            decreases self.members@.len() - i,
        {
            let ghost prev = out@;
            out.push(self.members[i].info.name.clone());
            assert(views(out@) =~= views(prev).push(self.entries()[i as int].name));
            assert(self.entries().take(i + 1).map_values(|v: TeammateView| v.name) =~= self.entries().take(
                i as int,
            ).map_values(|v: TeammateView| v.name).push(self.entries()[i as int].name));
            i += 1;
        }
        proof {
            assert(self.entries().take(self.entries().len() as int) =~= self.entries());
            assert forall|n: Seq<char>| #![auto]
                views(out@).to_set().contains(n) == self.members_map().dom().contains(n) by {
                if views(out@).contains(n) {
                    let k = choose|k: int| 0 <= k < views(out@).len() && views(out@)[k] == n;
                    assert(self.entries()[k].name == n);
                }
                if self.members_map().dom().contains(n) {
                    let k = choose|k: int| 0 <= k < self.entries().len() && #[trigger] self.entries()[k].name == n;
                    assert(views(out@)[k] == n);
                }
            }
            assert(views(out@).to_set() =~= self.members_map().dom());
            assert forall|a: int, b: int| 0 <= a < views(out@).len() && 0 <= b < views(out@).len() && a != b implies
                views(out@)[a] != views(out@)[b] by {
                assert(views(out@)[a] == self.entries()[a].name);
                assert(views(out@)[b] == self.entries()[b].name);
            }
        }
        out
    }
}

/// A registered teammate can be found by name, is not asked to shut down, and
/// is gone once removed.
pub proof fn law_register_get_remove(m: Map<Seq<char>, TeammateView>, name: Seq<char>, h: TeammateView)
    ensures
        m.insert(name, h).contains_key(name),
        m.insert(name, h)[name] == h,
        !m.insert(name, h).remove(name).contains_key(name),
{
}

} // verus!
