//! The scheduler's state: the resources with their semaphores, the guards
//! (holders) by token, and the token counter.
use crate::clock::clock_now;
use crate::clock::elapsed_secs_between;
use crate::clock::nanos_since;
use crate::config::Config;
use crate::config::PhaseSpec;
use crate::permits::pool_new;
use crate::permits::pool_release;
use crate::permits::pool_try_acquire;
use crate::permits::PermitPool;
use std::collections::HashMap;
use std::time::Instant;
use vstd::prelude::*;
use vstd::std_specs::iter::IteratorSpec;

verus! {

broadcast use vstd::std_specs::hash::group_hash_axioms;

/// A resource as plain values.
pub ghost struct ResourceView {
    pub name: Seq<char>,
    /// How many holders its semaphore admits at once.
    pub limit: nat,
    pub check_timeout: u64,
    pub dead_timeout: u64,
    /// When (nanoseconds on the scheduler's clock) dead holders were last looked for.
    pub last_check: u64,
}

/// A holder of a resource as plain values.
pub ghost struct GuardView {
    /// The resource held.
    pub name: Seq<char>,
    /// When (nanoseconds on the scheduler's clock) the holder last showed it is alive.
    pub last_live: u64,
}

/// The scheduler's state as plain values.
pub ghost struct SchedulerView {
    pub resources: Seq<ResourceView>,
    /// The holders, by token.
    pub guards: Map<u64, GuardView>,
    /// The next token to hand out.
    pub counter: u64,
}

/// The tokens holding the resource named `name`.
pub open spec fn holders(guards: Map<u64, GuardView>, name: Seq<char>) -> Set<u64> {
    guards.dom().filter(|t: u64| guards[t].name == name)
}

pub open spec fn has_resource(resources: Seq<ResourceView>, name: Seq<char>) -> bool {
    exists|i: int| 0 <= i < resources.len() && resources[i].name == name
}

/// The position of the resource named `name` (meaningful when there is one).
pub open spec fn resource_index(resources: Seq<ResourceView>, name: Seq<char>) -> int {
    choose|i: int| 0 <= i < resources.len() && resources[i].name == name
}

/// A holder is dead when more whole seconds than `dead_timeout` have passed
/// since it last showed it is alive.
pub open spec fn is_dead(g: GuardView, now: u64, dead_timeout: u64) -> bool {
    crate::clock::elapsed_secs(now, g.last_live) > dead_timeout
}

/// The holders that are not dead at `now`.
pub open spec fn live_guards(guards: Map<u64, GuardView>, now: u64, dead_timeout: u64) -> Map<
    u64,
    GuardView,
> {
    guards.restrict(guards.dom().filter(|t: u64| !is_dead(guards[t], now, dead_timeout)))
}

/// The token after `c` on the counter, which wraps around.
pub open spec fn next_token(c: u64) -> u64 {
    if c == u64::MAX {
        0
    } else {
        (c + 1) as u64
    }
}

/// No two resources share a name.
pub open spec fn names_distinct(resources: Seq<ResourceView>) -> bool {
    forall|i: int, j: int|
        0 <= i < resources.len() && 0 <= j < resources.len() && i != j ==> resources[i].name
            != resources[j].name
}

impl SchedulerView {
    /// Resource names are distinct, every holder holds a known resource, and
    /// no resource has more holders than its limit.
    pub open spec fn wf(self) -> bool {
        &&& names_distinct(self.resources)
        &&& self.guards.dom().finite()
        &&& forall|t: u64|
            self.guards.contains_key(t) ==> has_resource(self.resources, #[trigger] self.guards[t].name)
        &&& forall|i: int|
            0 <= i < self.resources.len() ==> (#[trigger] holders(
                self.guards,
                self.resources[i].name,
            )).len() <= self.resources[i].limit
    }
}

/// One `try_access` of the resource named `name` at time `now`, taking the
/// scheduler from `pre` to `post` with answer `result`.
///
/// An unknown resource is refused and nothing changes. A resource with fewer
/// holders than its limit is granted to a new holder under the next token.
/// Otherwise the request is refused; and if more whole seconds than the
/// resource's check timeout have passed since its last check, the check time
/// becomes `now` and every holder (of any resource) that is dead by this
/// resource's dead timeout is removed.
pub open spec fn try_access_step(
    pre: SchedulerView,
    name: Seq<char>,
    now: u64,
    post: SchedulerView,
    result: Option<u64>,
) -> bool {
    if !has_resource(pre.resources, name) {
        result is None && post == pre
    } else {
        let i = resource_index(pre.resources, name);
        let r = pre.resources[i];
        if holders(pre.guards, name).len() < r.limit {
            &&& result == Some(pre.counter)
            &&& post == SchedulerView {
                resources: pre.resources,
                guards: pre.guards.insert(pre.counter, GuardView { name, last_live: now }),
                counter: next_token(pre.counter),
            }
        } else if crate::clock::elapsed_secs(now, r.last_check) > r.check_timeout {
            &&& result is None
            &&& post == SchedulerView {
                resources: pre.resources.update(
                    i,
                    ResourceView {
                        name: r.name,
                        limit: r.limit,
                        check_timeout: r.check_timeout,
                        dead_timeout: r.dead_timeout,
                        last_check: now,
                    },
                ),
                guards: live_guards(pre.guards, now, r.dead_timeout),
                counter: pre.counter,
            }
        } else {
            result is None && post == pre
        }
    }
}

/// One `remove_guard` of `token`: the holder is removed; the answer is
/// `Some(true)` when there was one, `None` otherwise.
pub open spec fn remove_guard_step(
    pre: SchedulerView,
    token: u64,
    post: SchedulerView,
    result: Option<bool>,
) -> bool {
    &&& result == (if pre.guards.contains_key(token) { Some(true) } else { None::<bool> })
    &&& post == SchedulerView {
        resources: pre.resources,
        guards: pre.guards.remove(token),
        counter: pre.counter,
    }
}

/// One `ping` of `token` at time `now`: a holder under `token` is marked
/// alive at `now`; the answer says whether there was one.
pub open spec fn ping_step(pre: SchedulerView, token: u64, now: u64, post: SchedulerView, result: bool) -> bool {
    &&& result == pre.guards.contains_key(token)
    &&& post == SchedulerView {
        resources: pre.resources,
        guards: if result {
            pre.guards.insert(token, GuardView { name: pre.guards[token].name, last_live: now })
        } else {
            pre.guards
        },
        counter: pre.counter,
    }
}

/// The settings that a configuration gives the resource named `name`: those
/// of the last phase with that name, if any.
pub open spec fn setting_for(phases: Seq<PhaseSpec>, name: Seq<char>) -> Option<PhaseSpec>
    decreases phases.len(),
{
    if phases.len() == 0 {
        None
    } else if phases.last().name == name {
        Some(phases.last())
    } else {
        setting_for(phases.drop_last(), name)
    }
}

/// A resource made from its settings, checked last at the clock's origin.
pub open spec fn resource_from(p: PhaseSpec) -> ResourceView {
    ResourceView {
        name: p.name,
        limit: (p.concurrent_limit as usize) as nat,
        check_timeout: p.check_timeout,
        dead_timeout: p.dead_timeout,
        last_check: 0,
    }
}

/// The resources `resources` are those that the phases `phases` configure.
pub open spec fn configured_by(resources: Seq<ResourceView>, phases: Seq<PhaseSpec>) -> bool {
    forall|name: Seq<char>|
        match #[trigger] setting_for(phases, name) {
            None => !has_resource(resources, name),
            Some(p) => has_resource(resources, name) && resources[resource_index(resources, name)]
                == resource_from(p),
        }
}

/// A resource in a debugging snapshot.
pub struct ResourceInfo {
    pub name: String,
    /// Whole seconds since dead holders were last looked for.
    pub secs_since_check: u64,
}

/// A holder in a debugging snapshot.
pub struct HolderInfo {
    pub token: u64,
    /// The resource held.
    pub name: String,
    /// Whole seconds since the holder last showed it is alive.
    pub secs_since_live: u64,
}

/// A snapshot of the scheduler for debugging.
pub struct DebugInfo {
    pub resources: Vec<ResourceInfo>,
    pub holders: Vec<HolderInfo>,
}

impl DebugInfo {
    /// This snapshot describes the scheduler `v` at time `now`: each
    /// resource in order, and each holder exactly once.
    pub open spec fn describes(self, v: SchedulerView, now: u64) -> bool {
        &&& self.resources@.len() == v.resources.len()
        &&& forall|i: int|
            0 <= i < v.resources.len() ==> {
                let r = #[trigger] self.resources@[i];
                &&& r.name@ == v.resources[i].name
                &&& r.secs_since_check == crate::clock::elapsed_secs(now, v.resources[i].last_check)
            }
        &&& forall|j: int|
            0 <= j < self.holders@.len() ==> {
                let h = #[trigger] self.holders@[j];
                &&& v.guards.contains_key(h.token)
                &&& h.name@ == v.guards[h.token].name
                &&& h.secs_since_live == crate::clock::elapsed_secs(now, v.guards[h.token].last_live)
            }
        &&& forall|t: u64|
            v.guards.contains_key(t) ==> exists|j: int|
                0 <= j < self.holders@.len() && (#[trigger] self.holders@[j]).token == t
        &&& forall|j: int, k: int|
            0 <= j < self.holders@.len() && 0 <= k < self.holders@.len() && j != k
                ==> self.holders@[j].token != self.holders@[k].token
    }
}

/// Every recorded time (each holder's last sign of life, each resource's
/// last check) is at most `t`.
pub open spec fn times_within(v: SchedulerView, t: u64) -> bool {
    &&& forall|k: u64| v.guards.contains_key(k) ==> #[trigger] v.guards[k].last_live <= t
    &&& forall|i: int| 0 <= i < v.resources.len() ==> #[trigger] v.resources[i].last_check <= t
}

/// The later of two times.
pub open spec fn later(a: u64, b: u64) -> u64 {
    if a >= b {
        a
    } else {
        b
    }
}

/// `now` is the time read from the scheduler's clock when the latest time it
/// had used was `latest`: the nanoseconds of the duration that
/// `Instant::elapsed` measured since the clock's origin (saturated to
/// `u64`), or `latest` if that is later.
pub open spec fn is_clock_reading(latest: u64, now: u64) -> bool {
    exists|d: std::time::Duration|
        now == later(latest, crate::clock::saturated_nanos(#[trigger] crate::clock::duration_as_nanos(d)))
}

/// A request at `now` records no time after `later(t, now)`.
pub proof fn lemma_try_access_keeps_times(
    pre: SchedulerView,
    name: Seq<char>,
    now: u64,
    post: SchedulerView,
    result: Option<u64>,
    t: u64,
)
    requires
        times_within(pre, t),
        try_access_step(pre, name, now, post, result),
    ensures
        times_within(post, later(t, now)),
{
    if has_resource(pre.resources, name) {
        let i = resource_index(pre.resources, name);
        assert forall|k: int| 0 <= k < post.resources.len() implies #[trigger] post.resources[k].last_check
            <= later(t, now) by {
            assert(pre.resources[k].last_check <= t);
        }
        assert forall|k: u64| post.guards.contains_key(k) implies #[trigger] post.guards[k].last_live
            <= later(t, now) by {
            if pre.guards.contains_key(k) {
                assert(pre.guards[k].last_live <= t);
            }
        }
    }
}

/// A removal records no new time.
pub proof fn lemma_remove_guard_keeps_times(
    pre: SchedulerView,
    token: u64,
    post: SchedulerView,
    result: Option<bool>,
    t: u64,
)
    requires
        times_within(pre, t),
        remove_guard_step(pre, token, post, result),
    ensures
        times_within(post, t),
{
    assert forall|k: u64| post.guards.contains_key(k) implies #[trigger] post.guards[k].last_live <= t by {
        assert(pre.guards.contains_key(k));
    }
}

/// A ping at `now` records no time after `later(t, now)`.
pub proof fn lemma_ping_keeps_times(
    pre: SchedulerView,
    token: u64,
    now: u64,
    post: SchedulerView,
    result: bool,
    t: u64,
)
    requires
        times_within(pre, t),
        ping_step(pre, token, now, post, result),
    ensures
        times_within(post, later(t, now)),
{
    assert forall|k: u64| post.guards.contains_key(k) implies #[trigger] post.guards[k].last_live
        <= later(t, now) by {
        if k != token || !result {
            assert(pre.guards.contains_key(k));
            assert(pre.guards[k].last_live <= t);
        }
    }
}

struct SemaphoreData {
    name: String,
    permits: PermitPool,
    last_check: u64,
    check_timeout: u64,
    dead_timeout: u64,
}

impl SemaphoreData {
    closed spec fn view(&self) -> ResourceView {
        ResourceView {
            name: self.name@,
            limit: crate::permits::pool_capacity(self.permits),
            check_timeout: self.check_timeout,
            dead_timeout: self.dead_timeout,
            last_check: self.last_check,
        }
    }
}

struct GuardData {
    name: String,
    last_live: u64,
}

impl GuardData {
    closed spec fn view(&self) -> GuardView {
        GuardView { name: self.name@, last_live: self.last_live }
    }
}

/// Resources made from the configuration, holders by token, and a token
/// counter.
struct Tables {
    semaphores: Vec<SemaphoreData>,
    guards: HashMap<u64, GuardData>,
    counter: u64,
}

impl View for Tables {
    type V = SchedulerView;

    closed spec fn view(&self) -> SchedulerView {
        SchedulerView {
            resources: self.semaphores@.map_values(|s: SemaphoreData| s.view()),
            guards: self.guards@.map_values(|g: GuardData| g.view()),
            counter: self.counter,
        }
    }
}

/// Holders after a removal.
pub proof fn lemma_holders_remove(guards: Map<u64, GuardView>, t: u64, name: Seq<char>)
    ensures
        holders(guards.remove(t), name) == holders(guards, name).remove(t),
{
    assert(holders(guards.remove(t), name) =~= holders(guards, name).remove(t));
}

/// Holders after an insertion.
pub proof fn lemma_holders_insert(guards: Map<u64, GuardView>, t: u64, g: GuardView, name: Seq<char>)
    ensures
        holders(guards.insert(t, g), name) == (if g.name == name {
            holders(guards, name).insert(t)
        } else {
            holders(guards, name).remove(t)
        }),
{
    if g.name == name {
        assert(holders(guards.insert(t, g), name) =~= holders(guards, name).insert(t));
    } else {
        assert(holders(guards.insert(t, g), name) =~= holders(guards, name).remove(t));
    }
}

impl Tables {
    /// The view is well formed and each resource's semaphore is held by
    /// exactly the holders of that resource.
    spec fn wf(&self) -> bool {
        &&& self@.wf()
        &&& forall|i: int|
            0 <= i < self.semaphores@.len() ==> {
                let s = #[trigger] self.semaphores@[i];
                &&& crate::permits::pool_held(s.permits) == holders(self@.guards, s.name@)
                &&& crate::permits::pool_held(s.permits).finite()
            }
    }

    /// No resource and no holder.
    fn empty() -> (t: Self)
        ensures
            t.wf(),
            t@.resources == Seq::<ResourceView>::empty(),
            t@.guards == Map::<u64, GuardView>::empty(),
            t@.counter == 0,
    {
        let t = Tables { semaphores: Vec::new(), guards: HashMap::new(), counter: 0 };
        assert(t@.resources =~= Seq::<ResourceView>::empty());
        assert(t@.guards =~= Map::<u64, GuardView>::empty());
        t
    }

    /// The position of the resource named `name`, if there is one.
    fn find(&self, name: &str) -> (idx: Option<usize>)
        requires
            names_distinct(self@.resources),
        ensures
            match idx {
                Some(i) => {
                    &&& i < self.semaphores@.len()
                    &&& self@.resources[i as int].name == name@
                    &&& i == resource_index(self@.resources, name@)
                },
                None => !has_resource(self@.resources, name@),
            },
    {
        let target = name.to_owned();
        let mut i: usize = 0;
        while i < self.semaphores.len()
            invariant
                i <= self.semaphores@.len(),
                target@ == name@,
                names_distinct(self@.resources),
                forall|j: int| 0 <= j < i ==> #[trigger] self.semaphores@[j].name@ != name@,
            decreases self.semaphores@.len() - i,
        {
            if self.semaphores[i].name == target {
                proof {
                    let rs = self@.resources;
                    assert(rs[i as int].name == name@);
                    let k = resource_index(rs, name@);
                    assert(0 <= k < rs.len() && rs[k].name == name@);
                    if k != i {
                        assert(rs[k].name != rs[i as int].name);
                    }
                }
                return Some(i);
            }
            i += 1;
        }
        proof {
            let rs = self@.resources;
            assert forall|j: int| 0 <= j < rs.len() implies rs[j].name != name@ by {
                assert(self.semaphores@[j].name@ != name@);
            }
        }
        None
    }

    /// Removes the holder under `token`, releasing its access.
    fn remove_token(&mut self, token: u64) -> (removed: bool)
        requires
            old(self).wf(),
        ensures
            final(self).wf(),
            removed == old(self)@.guards.contains_key(token),
            final(self)@ == (SchedulerView {
                resources: old(self)@.resources,
                guards: old(self)@.guards.remove(token),
                counter: old(self)@.counter,
            }),
    {
        let ghost pre = self@;
        let ghost pre_map = self.guards@;
        let ghost pre_sems = self.semaphores@;
        let removed = self.guards.remove(&token);
        proof {
            assert(self.guards@ == pre_map.remove(token));
            assert(self@.guards =~= pre.guards.remove(token));
        }
        match removed {
            None => {
                assert(self@.guards =~= pre.guards);
                false
            },
            Some(g) => {
                proof {
                    assert(pre_map.contains_key(token) && pre_map[token] == g);
                    assert(pre.guards.contains_key(token));
                    assert(has_resource(pre.resources, pre.guards[token].name));
                    assert(self@.resources == pre.resources);
                }
                let idx = self.find(g.name.as_str());
                let i = idx.unwrap();
                pool_release(&mut self.semaphores[i].permits, token);
                proof {
                    assert(self@.resources =~= pre.resources);
                    assert forall|k: int| 0 <= k < self.semaphores@.len() implies {
                        let s = #[trigger] self.semaphores@[k];
                        &&& crate::permits::pool_held(s.permits) == holders(self@.guards, s.name@)
                        &&& crate::permits::pool_held(s.permits).finite()
                    } by {
                        let s0 = pre_sems[k];
                        assert(crate::permits::pool_held(s0.permits) == holders(pre.guards, s0.name@));
                        lemma_holders_remove(pre.guards, token, s0.name@);
                        if k != i {
                            assert(self.semaphores@[k] == s0);
                            assert(pre.resources[k].name != pre.resources[i as int].name);
                            assert(!holders(pre.guards, s0.name@).contains(token));
                            assert(holders(pre.guards, s0.name@).remove(token) =~= holders(
                                pre.guards,
                                s0.name@,
                            ));
                        }
                    }
                    crate::laws::lemma_remove_guard_keeps_limits(pre, token, self@, Some(true));
                }
                true
            },
        }
    }

    /// Removes the holder under `token`, releasing its access to the
    /// resource: `Some(true)` when there was one, `None` otherwise.
    fn remove_guard(&mut self, token: u64) -> (result: Option<bool>)
        requires
            old(self).wf(),
        ensures
            final(self).wf(),
            remove_guard_step(old(self)@, token, final(self)@, result),
    {
        if self.remove_token(token) {
            Some(true)
        } else {
            None
        }
    }

    /// Marks the holder under `token` alive at `now`; says whether there is one.
    fn ping_at(&mut self, token: u64, now: u64) -> (alive: bool)
        requires
            old(self).wf(),
        ensures
            final(self).wf(),
            ping_step(old(self)@, token, now, final(self)@, alive),
    {
        let ghost pre = self@;
        let ghost pre_map = self.guards@;
        let removed = self.guards.remove(&token);
        match removed {
            None => {
                proof {
                    assert(self.guards@ =~= pre_map);
                    assert(self@.guards =~= pre.guards);
                }
                false
            },
            Some(g) => {
                let ghost gv = GuardView { name: g.name@, last_live: now };
                self.guards.insert(token, GuardData { name: g.name, last_live: now });
                proof {
                    assert(pre_map.contains_key(token) && pre_map[token] == g);
                    assert(self.guards@ =~= pre_map.insert(token, GuardData { name: g.name, last_live: now }));
                    assert(self@.guards =~= pre.guards.insert(token, gv));
                    assert(self@.resources =~= pre.resources);
                    crate::laws::lemma_ping_keeps_holders(pre, token, now, self@, true);
                    assert forall|k: int| 0 <= k < self.semaphores@.len() implies {
                        let s = #[trigger] self.semaphores@[k];
                        &&& crate::permits::pool_held(s.permits) == holders(self@.guards, s.name@)
                        &&& crate::permits::pool_held(s.permits).finite()
                    } by {
                        assert(holders(self@.guards, self.semaphores@[k].name@) == holders(
                            pre.guards,
                            self.semaphores@[k].name@,
                        ));
                    }
                }
                true
            },
        }
    }

    /// A scheduler for the resources of `config` (a later phase with the
    /// name of an earlier one replaces it), with no holder, the token
    /// counter at zero, and its clock started.
    fn from_config(config: &Config) -> (s: Self)
        ensures
            s.wf(),
            s@.guards == Map::<u64, GuardView>::empty(),
            s@.counter == 0,
            configured_by(s@.resources, config.phase_specs()),
            forall|i: int| 0 <= i < s@.resources.len() ==> #[trigger] s@.resources[i].last_check == 0,
    {
        let mut state = Tables::empty();
        let ghost ps = config.phase_specs();
        proof {
            assert(state@.guards =~= Map::<u64, GuardView>::empty());
            assert forall|name: Seq<char>|
                match #[trigger] setting_for(ps.take(0), name) {
                    None => !has_resource(state@.resources, name),
                    Some(p) => has_resource(state@.resources, name)
                        && state@.resources[resource_index(state@.resources, name)] == resource_from(p),
                } by {
                assert(ps.take(0).len() == 0);
            }
        }
        for k in 0..config.phases.len()
            invariant
                ps == config.phase_specs(),
                state.wf(),
                state@.guards == Map::<u64, GuardView>::empty(),
                state@.counter == 0,
                configured_by(state@.resources, ps.take(k as int)),
                forall|i: int| 0 <= i < state@.resources.len() ==> #[trigger] state@.resources[i].last_check == 0,
        {
            let p = &config.phases[k];
            let data = SemaphoreData {
                name: p.name.clone(),
                permits: pool_new(p.concurrent_limit as usize),
                last_check: 0,
                check_timeout: p.check_timeout,
                dead_timeout: p.dead_timeout,
            };
            let ghost pre = state@;
            let ghost pspec = ps[k as int];
            proof {
                assert(pspec == p.spec());
                assert(data.view() == resource_from(pspec));
                assert(ps.take(k + 1).drop_last() =~= ps.take(k as int));
                assert(ps.take(k + 1).last() == pspec);
            }
            match state.find(p.name.as_str()) {
                Some(i) => {
                    state.semaphores.set(i, data);
                    proof {
                        assert(state@.resources =~= pre.resources.update(i as int, data.view()));
                    }
                },
                None => {
                    state.semaphores.push(data);
                    proof {
                        assert(state@.resources =~= pre.resources.push(data.view()));
                    }
                },
            }
            proof {
                let rs = state@.resources;
                assert(state@.guards =~= pre.guards);
                assert(has_resource(rs, pspec.name)) by {
                    assert(exists|w: int| 0 <= w < rs.len() && rs[w].name == pspec.name) by {
                        if has_resource(pre.resources, pspec.name) {
                            let i = resource_index(pre.resources, pspec.name);
                            assert(rs[i].name == pspec.name);
                        } else {
                            assert(rs[rs.len() - 1].name == pspec.name);
                        }
                    }
                }
                assert(names_distinct(rs));
                assert forall|name: Seq<char>|
                    match #[trigger] setting_for(ps.take(k + 1), name) {
                        None => !has_resource(rs, name),
                        Some(q) => has_resource(rs, name) && rs[resource_index(rs, name)] == resource_from(q),
                    } by {
                    assert(setting_for(ps.take(k + 1), name) == if name == pspec.name {
                        Some(pspec)
                    } else {
                        setting_for(ps.take(k as int), name)
                    });
                    if name == pspec.name {
                    } else {
                        if has_resource(pre.resources, name) {
                            let j = resource_index(pre.resources, name);
                            assert(rs[j].name == name);
                        }
                        if has_resource(rs, name) {
                            let j = resource_index(rs, name);
                            assert(j < pre.resources.len());
                            assert(pre.resources[j].name == name);
                        }
                    }
                }
                assert forall|m: int| 0 <= m < state.semaphores@.len() implies {
                    let s = #[trigger] state.semaphores@[m];
                    &&& crate::permits::pool_held(s.permits) == holders(state@.guards, s.name@)
                    &&& crate::permits::pool_held(s.permits).finite()
                } by {
                    assert(holders(state@.guards, state.semaphores@[m].name@) =~= Set::<u64>::empty());
                }
                assert forall|m: int| 0 <= m < rs.len() implies (#[trigger] holders(
                    state@.guards,
                    rs[m].name,
                )).len() <= rs[m].limit by {
                    assert(holders(state@.guards, rs[m].name) =~= Set::<u64>::empty());
                }
            }
        }
        proof {
            assert(ps.take(config.phases@.len() as int) =~= ps);
        }
        state
    }

    /// A snapshot of the resources, in their order, and of the holders, in
    /// no particular order, with the whole seconds elapsed at `now` since
    /// each resource's last check and each holder's last sign of life.
    fn debug_info_at(&self, now: u64) -> (info: DebugInfo)
        requires
            self.wf(),
        ensures
            info.describes(self@, now),
    {
        let mut resources: Vec<ResourceInfo> = Vec::new();
        for i in 0..self.semaphores.len()
            invariant
                resources@.len() == i,
                forall|m: int|
                    0 <= m < i ==> {
                        let r = #[trigger] resources@[m];
                        &&& r.name@ == self@.resources[m].name
                        &&& r.secs_since_check == crate::clock::elapsed_secs(now, self@.resources[m].last_check)
                    },
        {
            let s = &self.semaphores[i];
            resources.push(
                ResourceInfo {
                    name: s.name.clone(),
                    secs_since_check: elapsed_secs_between(now, s.last_check),
                },
            );
        }
        let ghost ks = vstd::std_specs::hash::spec_keys_iter(&self.guards).remaining().unref();
        proof {
            vstd::std_specs::hash::axiom_spec_keys_iter(&self.guards);
        }
        let mut tokens: Vec<u64> = Vec::new();
        for t in it: self.guards.keys()
            invariant
                it.seq().unref() == ks,
                tokens@ == ks.take(it.index()),
        {
            tokens.push(*t);
            assert(tokens@ =~= ks.take(it.index() + 1));
        }
        assert(tokens@ =~= ks);
        let mut holders_out: Vec<HolderInfo> = Vec::new();
        let mut k: usize = 0;
        while k < tokens.len()
            invariant
                self.wf(),
                k <= tokens@.len(),
                tokens@ == ks,
                ks.no_duplicates(),
                ks.to_set() == self@.guards.dom(),
                holders_out@.len() == k,
                forall|j: int|
                    0 <= j < k ==> {
                        let h = #[trigger] holders_out@[j];
                        &&& h.token == tokens@[j]
                        &&& self@.guards.contains_key(h.token)
                        &&& h.name@ == self@.guards[h.token].name
                        &&& h.secs_since_live == crate::clock::elapsed_secs(now, self@.guards[h.token].last_live)
                    },
            decreases tokens@.len() - k,
        {
            let t = tokens[k];
            proof {
                assert(ks.to_set().contains(t));
            }
            let g = self.guards.get(&t).unwrap();
            holders_out.push(
                HolderInfo {
                    token: t,
                    name: g.name.clone(),
                    secs_since_live: elapsed_secs_between(now, g.last_live),
                },
            );
            k += 1;
        }
        proof {
            assert forall|t: u64| self@.guards.contains_key(t) implies exists|j: int|
                0 <= j < holders_out@.len() && (#[trigger] holders_out@[j]).token == t by {
                assert(ks.to_set().contains(t));
                let j = choose|j: int| 0 <= j < ks.len() && ks[j] == t;
                assert(holders_out@[j].token == t);
            }
            assert forall|j: int, m: int|
                0 <= j < holders_out@.len() && 0 <= m < holders_out@.len() && j != m
                    implies holders_out@[j].token != holders_out@[m].token by {
                assert(holders_out@[j].token == ks[j]);
                assert(holders_out@[m].token == ks[m]);
            }
        }
        let info = DebugInfo { resources, holders: holders_out };
        // The snapshot's fields are the vectors built above.
        assert(info.resources@ == resources@ && info.holders@ == holders_out@);
        info
    }

    /// Asks for the resource named `name` at time `now` (nanoseconds on the
    /// scheduler's clock): the new holder's token when granted, `None` when
    /// refused. See `try_access_step`.
    fn try_access_at(&mut self, name: &str, now: u64) -> (result: Option<u64>)
        requires
            old(self).wf(),
        ensures
            final(self).wf(),
            try_access_step(old(self)@, name@, now, final(self)@, result),
    {
        let ghost pre = self@;
        let ghost pre_sems = self.semaphores@;
        let ghost pre_map = self.guards@;
        let idx = self.find(name);
        let i = match idx {
            None => {
                return None;
            },
            Some(i) => i,
        };
        let token = self.counter;
        proof {
            assert(pre_sems[i as int].view() == pre.resources[i as int]);
            assert(crate::permits::pool_held(pre_sems[i as int].permits) == holders(pre.guards, name@));
        }
        let acquired = pool_try_acquire(&mut self.semaphores[i].permits, token);
        if acquired {
            self.counter = if token == u64::MAX {
                0
            } else {
                token + 1
            };
            let owner = self.semaphores[i].name.clone();
            let ghost gv = GuardView { name: name@, last_live: now };
            let replaced = self.guards.insert(token, GuardData { name: owner, last_live: now });
            proof {
                assert(self.guards@ == pre_map.insert(token, GuardData { name: owner, last_live: now }));
                assert(self@.guards =~= pre.guards.insert(token, gv));
                assert(self@.resources =~= pre.resources);
            }
            let ghost old_owner: int = -1;
            match replaced {
                Some(old_g) => {
                    proof {
                        assert(pre_map.contains_key(token) && pre_map[token] == old_g);
                        assert(pre.guards.contains_key(token));
                        assert(has_resource(pre.resources, pre.guards[token].name));
                    }
                    if old_g.name != self.semaphores[i].name {
                        let j = self.find(old_g.name.as_str()).unwrap();
                        pool_release(&mut self.semaphores[j].permits, token);
                        proof {
                            old_owner = j as int;
                        }
                    }
                },
                None => {},
            }
            proof {
                let g0 = pre.guards;
                assert(self@.resources =~= pre.resources);
                assert forall|k: int| 0 <= k < self.semaphores@.len() implies {
                    let s = #[trigger] self.semaphores@[k];
                    &&& crate::permits::pool_held(s.permits) == holders(self@.guards, s.name@)
                    &&& crate::permits::pool_held(s.permits).finite()
                } by {
                    let s0 = pre_sems[k];
                    let m = s0.name@;
                    assert(crate::permits::pool_held(s0.permits) == holders(g0, m));
                    lemma_holders_insert(g0, token, gv, m);
                    if k == i {
                    } else if k == old_owner {
                        assert(g0.contains_key(token) && g0[token].name == m);
                    } else {
                        assert(pre.resources[k].name != pre.resources[i as int].name);
                        if g0.contains_key(token) {
                            assert(g0[token].name != m);
                        }
                        assert(!holders(g0, m).contains(token));
                        assert(holders(g0, m).remove(token) =~= holders(g0, m));
                    }
                }
                assert(holders(g0, name@).len() == crate::permits::pool_held(pre_sems[i as int].permits).len());
                crate::laws::lemma_try_access_keeps_limits(pre, name@, now, self@, Some(token));
            }
            Some(token)
        } else {
            proof {
                assert forall|k: int| 0 <= k < self.semaphores@.len() implies {
                    &&& crate::permits::pool_held(#[trigger] self.semaphores@[k].permits)
                        == crate::permits::pool_held(pre_sems[k].permits)
                    &&& self.semaphores@[k].view() == pre_sems[k].view()
                } by {
                    if k != i {
                        assert(self.semaphores@[k] == pre_sems[k]);
                    }
                }
                assert(self@.resources =~= pre.resources);
            }
            if elapsed_secs_between(now, self.semaphores[i].last_check)
                > self.semaphores[i].check_timeout {
                self.semaphores[i].last_check = now;
                let dead_timeout = self.semaphores[i].dead_timeout;
                proof {
                    let r = pre.resources[i as int];
                    assert(self@.resources =~= pre.resources.update(
                        i as int,
                        ResourceView {
                            name: r.name,
                            limit: r.limit,
                            check_timeout: r.check_timeout,
                            dead_timeout: r.dead_timeout,
                            last_check: now,
                        },
                    ));
                    assert(self@.guards == pre.guards);
                    assert forall|k: int| 0 <= k < self.semaphores@.len() implies {
                        let s = #[trigger] self.semaphores@[k];
                        &&& crate::permits::pool_held(s.permits) == holders(self@.guards, s.name@)
                        &&& crate::permits::pool_held(s.permits).finite()
                    } by {
                        assert(crate::permits::pool_held(pre_sems[k].permits) == holders(pre.guards, pre_sems[k].name@));
                    }
                    assert forall|k: int| 0 <= k < self@.resources.len() implies (#[trigger] holders(
                        self@.guards,
                        self@.resources[k].name,
                    )).len() <= self@.resources[k].limit by {
                        assert(holders(pre.guards, pre.resources[k].name).len() <= pre.resources[k].limit);
                    }
                    assert forall|t: u64| self@.guards.contains_key(t) implies has_resource(
                        self@.resources,
                        #[trigger] self@.guards[t].name,
                    ) by {
                        assert(has_resource(pre.resources, pre.guards[t].name));
                        let w = choose|w: int| 0 <= w < pre.resources.len() && pre.resources[w].name == pre.guards[t].name;
                        assert(self@.resources[w].name == pre.guards[t].name);
                    }
                }
                self.reap(now, dead_timeout);
            } else {
                proof {
                    assert forall|k: int| 0 <= k < self.semaphores@.len() implies {
                        let s = #[trigger] self.semaphores@[k];
                        &&& crate::permits::pool_held(s.permits) == holders(self@.guards, s.name@)
                        &&& crate::permits::pool_held(s.permits).finite()
                    } by {
                        assert(crate::permits::pool_held(pre_sems[k].permits) == holders(pre.guards, pre_sems[k].name@));
                    }
                    assert(self@ =~= pre);
                }
            }
            None
        }
    }

    /// Removes every holder that is dead at `now` by `dead_timeout`,
    /// releasing their accesses.
    fn reap(&mut self, now: u64, dead_timeout: u64)
        requires
            old(self).wf(),
        ensures
            final(self).wf(),
            final(self)@ == (SchedulerView {
                resources: old(self)@.resources,
                guards: live_guards(old(self)@.guards, now, dead_timeout),
                counter: old(self)@.counter,
            }),
    {
        let ghost orig = self@.guards;
        let ghost ks = vstd::std_specs::hash::spec_keys_iter(&self.guards).remaining().unref();
        proof {
            vstd::std_specs::hash::axiom_spec_keys_iter(&self.guards);
        }
        let mut tokens: Vec<u64> = Vec::new();
        for t in it: self.guards.keys()
            invariant
                it.seq().unref() == ks,
                tokens@ == ks.take(it.index()),
        {
            tokens.push(*t);
            assert(tokens@ =~= ks.take(it.index() + 1));
        }
        assert(tokens@ =~= ks);
        let ghost pre = self@;
        let mut k: usize = 0;
        while k < tokens.len()
            invariant
                self.wf(),
                k <= tokens@.len(),
                pre.guards == orig,
                self@.resources == pre.resources,
                self@.counter == pre.counter,
                forall|t: u64|
                    #![trigger self@.guards.contains_key(t)]
                    self@.guards.contains_key(t) <==> (orig.contains_key(t) && !(tokens@.take(
                        k as int,
                    ).contains(t) && is_dead(orig[t], now, dead_timeout))),
                forall|t: u64| self@.guards.contains_key(t) ==> self@.guards[t] == orig[t],
            decreases tokens@.len() - k,
        {
            let t = tokens[k];
            let dead = match self.guards.get(&t) {
                Some(g) => elapsed_secs_between(now, g.last_live) > dead_timeout,
                None => false,
            };
            proof {
                if self@.guards.contains_key(t) {
                    assert(dead == is_dead(orig[t], now, dead_timeout));
                }
            }
            let ghost before = self@.guards;
            if dead {
                self.remove_token(t);
            }
            proof {
                let prefix = tokens@.take(k as int);
                assert(tokens@.take(k + 1) =~= prefix.push(t));
                assert forall|u: u64| #![trigger self@.guards.contains_key(u)]
                    self@.guards.contains_key(u) <==> (orig.contains_key(u) && !(tokens@.take(
                        k + 1,
                    ).contains(u) && is_dead(orig[u], now, dead_timeout))) by {
                    broadcast use vstd::seq_lib::group_seq_properties;
                    assert(prefix.push(t).contains(u) <==> (prefix.contains(u) || u == t));
                    assert(before.contains_key(u) <==> (orig.contains_key(u) && !(prefix.contains(u)
                        && is_dead(orig[u], now, dead_timeout))));
                }
            }
            k += 1;
        }
        proof {
            assert(tokens@.take(k as int) =~= tokens@);
            assert(tokens@.to_set() == orig.dom());
            assert forall|t: u64| tokens@.contains(t) <==> orig.contains_key(t) by {
                if tokens@.contains(t) {
                    assert(tokens@.to_set().contains(t));
                }
                if orig.contains_key(t) {
                    assert(tokens@.to_set().contains(t));
                }
            }
            assert(self@.guards =~= live_guards(orig, now, dead_timeout));
        }
    }
}


/// The scheduler: its resources, holders and token counter, and the clock
/// that timestamps them.
pub struct SchedulerState {
    tables: Tables,
    origin: Instant,
    latest: u64,
}

impl View for SchedulerState {
    type V = SchedulerView;

    closed spec fn view(&self) -> SchedulerView {
        self.tables@
    }
}

impl SchedulerState {
    #[verifier::type_invariant]
    spec fn inv(&self) -> bool {
        &&& self.tables.wf()
        &&& times_within(self.tables@, self.latest)
    }

    /// The latest time (nanoseconds on the scheduler's clock) that the
    /// scheduler has used; the times it reads from its clock never go back
    /// before it.
    pub closed spec fn clock(&self) -> u64 {
        self.latest
    }

    /// A scheduler for the resources of `config` (a later phase with the
    /// name of an earlier one replaces it), with no holder, the token
    /// counter at zero, and its clock started: time zero on that clock, the
    /// moment of this call, is when every resource was last checked. (A
    /// server makes its scheduler when the first request for a resource
    /// arrives, so that the first check waits a full check timeout from
    /// then.)
    pub fn new(config: &Config) -> (s: Self)
        ensures
            s@.wf(),
            s@.guards == Map::<u64, GuardView>::empty(),
            s@.counter == 0,
            configured_by(s@.resources, config.phase_specs()),
            forall|i: int| 0 <= i < s@.resources.len() ==> #[trigger] s@.resources[i].last_check == 0,
            s.clock() == 0,
            times_within(s@, s.clock()),
    {
        let origin = clock_now();
        SchedulerState { tables: Tables::from_config(config), origin, latest: 0 }
    }

    /// The time now on the scheduler's clock: the clock's reading, or the
    /// latest time used if that is later.
    fn read_clock(&self) -> (now: u64)
        ensures
            now >= self.clock(),
            is_clock_reading(self.clock(), now),
    {
        let r = nanos_since(&self.origin);
        let now = if r > self.latest {
            r
        } else {
            self.latest
        };
        proof {
            let d = choose|d: std::time::Duration|
                r == crate::clock::saturated_nanos(#[trigger] crate::clock::duration_as_nanos(d));
            assert(now == later(self.latest, crate::clock::saturated_nanos(crate::clock::duration_as_nanos(d))));
        }
        now
    }

    /// Asks for the resource named `name` at time `now` (nanoseconds on the
    /// scheduler's clock): the new holder's token when granted, `None` when
    /// refused. See `try_access_step`.
    pub fn try_access_at(&mut self, name: &str, now: u64) -> (result: Option<u64>)
        ensures
            final(self)@.wf(),
            try_access_step(old(self)@, name@, now, final(self)@, result),
            crate::laws::step(
                old(self)@,
                crate::laws::Call::TryAccess { name: name@, now },
                final(self)@,
                crate::laws::Answer::Granted(result),
            ),
            final(self).clock() == later(old(self).clock(), now),
            times_within(final(self)@, final(self).clock()),
    {
        proof {
            use_type_invariant(&*self);
        }
        let ghost pre = self@;
        let ghost t0 = self.latest;
        self.latest = if now > self.latest {
            now
        } else {
            self.latest
        };
        let mut t = Tables::empty();
        std::mem::swap(&mut t, &mut self.tables);
        let result = t.try_access_at(name, now);
        proof {
            lemma_try_access_keeps_times(pre, name@, now, t@, result, t0);
        }
        self.tables = t;
        result
    }

    /// `try_access_at` at the time now on the scheduler's clock, which is
    /// no earlier than the latest time it used.
    pub fn try_access(&mut self, name: &str) -> (result: Option<u64>)
        ensures
            final(self)@.wf(),
            exists|now: u64|
                {
                    &&& now >= old(self).clock()
                    &&& is_clock_reading(old(self).clock(), now)
                    &&& final(self).clock() == now
                    &&& #[trigger] try_access_step(old(self)@, name@, now, final(self)@, result)
                    &&& crate::laws::step(
                        old(self)@,
                        crate::laws::Call::TryAccess { name: name@, now },
                        final(self)@,
                        crate::laws::Answer::Granted(result),
                    )
                },
            times_within(final(self)@, final(self).clock()),
    {
        let now = self.read_clock();
        self.try_access_at(name, now)
    }

    /// Removes the holder under `token`, releasing its access to the
    /// resource: `Some(true)` when there was one, `None` otherwise.
    pub fn remove_guard(&mut self, token: u64) -> (result: Option<bool>)
        ensures
            final(self)@.wf(),
            remove_guard_step(old(self)@, token, final(self)@, result),
            crate::laws::step(
                old(self)@,
                crate::laws::Call::RemoveGuard { token },
                final(self)@,
                crate::laws::Answer::Removed(result),
            ),
            final(self).clock() == old(self).clock(),
            times_within(final(self)@, final(self).clock()),
    {
        proof {
            use_type_invariant(&*self);
        }
        let ghost pre = self@;
        let mut t = Tables::empty();
        std::mem::swap(&mut t, &mut self.tables);
        let result = t.remove_guard(token);
        proof {
            lemma_remove_guard_keeps_times(pre, token, t@, result, self.latest);
        }
        self.tables = t;
        result
    }

    /// Marks the holder under `token` alive at `now`; says whether there is one.
    pub fn ping_at(&mut self, token: u64, now: u64) -> (alive: bool)
        ensures
            final(self)@.wf(),
            ping_step(old(self)@, token, now, final(self)@, alive),
            crate::laws::step(
                old(self)@,
                crate::laws::Call::Ping { token, now },
                final(self)@,
                crate::laws::Answer::Alive(alive),
            ),
            final(self).clock() == later(old(self).clock(), now),
            times_within(final(self)@, final(self).clock()),
    {
        proof {
            use_type_invariant(&*self);
        }
        let ghost pre = self@;
        let ghost t0 = self.latest;
        self.latest = if now > self.latest {
            now
        } else {
            self.latest
        };
        let mut t = Tables::empty();
        std::mem::swap(&mut t, &mut self.tables);
        let alive = t.ping_at(token, now);
        proof {
            lemma_ping_keeps_times(pre, token, now, t@, alive, t0);
        }
        self.tables = t;
        alive
    }

    /// `ping_at` at the time now on the scheduler's clock, which is no
    /// earlier than the latest time it used.
    pub fn ping(&mut self, token: u64) -> (alive: bool)
        ensures
            final(self)@.wf(),
            exists|now: u64|
                {
                    &&& now >= old(self).clock()
                    &&& is_clock_reading(old(self).clock(), now)
                    &&& final(self).clock() == now
                    &&& #[trigger] ping_step(old(self)@, token, now, final(self)@, alive)
                    &&& crate::laws::step(
                        old(self)@,
                        crate::laws::Call::Ping { token, now },
                        final(self)@,
                        crate::laws::Answer::Alive(alive),
                    )
                },
            times_within(final(self)@, final(self).clock()),
    {
        let now = self.read_clock();
        self.ping_at(token, now)
    }

    /// A snapshot of the resources, in their order, and of the holders, in
    /// no particular order, with the whole seconds elapsed at `now` since
    /// each resource's last check and each holder's last sign of life.
    pub fn debug_info_at(&self, now: u64) -> (info: DebugInfo)
        ensures
            info.describes(self@, now),
    {
        proof {
            use_type_invariant(self);
        }
        self.tables.debug_info_at(now)
    }

    /// `debug_info_at` at the time now on the scheduler's clock, which is no
    /// earlier than the latest time the scheduler used.
    pub fn show_debug_info(&self) -> (info: DebugInfo)
        ensures
            exists|now: u64|
                now >= self.clock() && is_clock_reading(self.clock(), now) && #[trigger] info.describes(
                    self@,
                    now,
                ),
    {
        let now = self.read_clock();
        self.debug_info_at(now)
    }
}

} // verus!
