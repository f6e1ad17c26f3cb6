//! The scheduler's RPC service: what each call answers and what it does to
//! the scheduler.
use crate::cond::SchedulerState;
use crate::messages::AccessResource;
use crate::messages::Empty;
use crate::messages::ExecResult;
use crate::messages::ResourceResult;
use crate::messages::ResourceToken;
use vstd::prelude::*;

verus! {

/// The calls of the scheduler's RPC service; the server answers each request
/// with the value returned.
pub trait Scheduler {
    fn test(&mut self, req: Empty) -> Empty;

    fn try_access(&mut self, req: AccessResource) -> ResourceResult;

    fn remove_guard(&mut self, req: ResourceToken) -> ExecResult;

    fn ping(&mut self, req: ResourceToken) -> ExecResult;
}

/// The service that the server runs: the scheduler behind the RPC calls.
pub struct SchedulerService {
    state: SchedulerState,
}

impl View for SchedulerService {
    type V = crate::cond::SchedulerView;

    closed spec fn view(&self) -> crate::cond::SchedulerView {
        self.state@
    }
}

impl SchedulerService {
    /// The service over the scheduler `state`.
    pub fn new(state: SchedulerState) -> (s: Self)
        ensures
            s@ == state@,
    {
        SchedulerService { state }
    }

    /// The latest time the scheduler behind the service has used.
    pub closed spec fn clock(&self) -> u64 {
        self.state.clock()
    }

    /// The scheduler behind the service.
    pub fn state(&self) -> (s: &SchedulerState)
        ensures
            s@ == self@,
    {
        &self.state
    }
}

impl Scheduler for SchedulerService {
    /// Answers with the empty message and changes nothing.
    fn test(&mut self, req: Empty) -> (resp: Empty)
        ensures
            final(self)@ == old(self)@,
            final(self).clock() == old(self).clock(),
    {
        Empty {}
    }

    /// Asks for the resource the request names in `request_resource` (the
    /// request's `name` only identifies the request); the answer carries the
    /// token when the resource was granted.
    fn try_access(&mut self, req: AccessResource) -> (resp: ResourceResult)
        ensures
            final(self)@.wf(),
            exists|now: u64|
                now >= old(self).clock() && crate::cond::is_clock_reading(old(self).clock(), now)
                    && final(self).clock() == now && #[trigger] crate::cond::try_access_step(
                    old(self)@,
                    req.request_resource@,
                    now,
                    final(self)@,
                    resp.granted(),
                ),
    {
        let ghost pre = self@;
        let ghost c0 = self.clock();
        let r = self.state.try_access(req.request_resource.as_str());
        let resp = match r {
            Some(tok) => ResourceResult { token: Some(ResourceToken { token: tok }) },
            None => ResourceResult { token: None },
        };
        proof {
            let now = choose|now: u64|
                now >= c0 && crate::cond::is_clock_reading(c0, now) && self.clock() == now
                    && #[trigger] crate::cond::try_access_step(
                    pre,
                    req.request_resource@,
                    now,
                    self@,
                    r,
                );
            assert(resp.granted() == r);
            assert(crate::cond::try_access_step(pre, req.request_resource@, now, self@, resp.granted()));
        }
        resp
    }

    /// Releases the holder under the request's token; the answer says
    /// whether there was one.
    fn remove_guard(&mut self, req: ResourceToken) -> (resp: ExecResult)
        ensures
            final(self)@.wf(),
            resp.result == old(self)@.guards.contains_key(req.token),
            final(self).clock() == old(self).clock(),
            crate::cond::remove_guard_step(
                old(self)@,
                req.token,
                final(self)@,
                if resp.result { Some(true) } else { None },
            ),
    {
        match self.state.remove_guard(req.token) {
            Some(r) => ExecResult { result: r },
            None => ExecResult { result: false },
        }
    }

    /// Marks the holder under the request's token alive; the answer says
    /// whether there is one.
    fn ping(&mut self, req: ResourceToken) -> (resp: ExecResult)
        ensures
            final(self)@.wf(),
            exists|now: u64|
                now >= old(self).clock() && crate::cond::is_clock_reading(old(self).clock(), now)
                    && final(self).clock() == now && #[trigger] crate::cond::ping_step(
                    old(self)@,
                    req.token,
                    now,
                    final(self)@,
                    resp.result,
                ),
    {
        let ghost pre = self@;
        let ghost c0 = self.clock();
        let alive = self.state.ping(req.token);
        let ghost now = choose|now: u64|
            now >= c0 && crate::cond::is_clock_reading(c0, now) && self.clock() == now
                && #[trigger] crate::cond::ping_step(pre, req.token, now, self@, alive);
        let resp = ExecResult { result: alive };
        assert(crate::cond::ping_step(pre, req.token, now, self@, resp.result));
        resp
    }
}

} // verus!
