//! What holds of the scheduler across its operations.
use vstd::prelude::*;

verus! {

use crate::cond::GuardView;
use crate::cond::SchedulerView;

/// The holders of a resource are finitely many.
proof fn lemma_holders_finite(guards: Map<u64, GuardView>, name: Seq<char>)
    requires
        guards.dom().finite(),
    ensures
        crate::cond::holders(guards, name).finite(),
{
    guards.dom().lemma_len_filter(|t: u64| guards[t].name == name);
}

/// No resource ever has more holders than its limit: every `try_access`
/// keeps the scheduler well formed, and so within every limit.
pub proof fn lemma_try_access_keeps_limits(
    pre: SchedulerView,
    name: Seq<char>,
    now: u64,
    post: SchedulerView,
    result: Option<u64>,
)
    requires
        pre.wf(),
        crate::cond::try_access_step(pre, name, now, post, result),
    ensures
        post.wf(),
        forall|i: int|
            0 <= i < post.resources.len() ==> (#[trigger] crate::cond::holders(
                post.guards,
                post.resources[i].name,
            )).len() <= post.resources[i].limit,
{
    if !crate::cond::has_resource(pre.resources, name) {
        return;
    }
    let i = crate::cond::resource_index(pre.resources, name);
    let r = pre.resources[i];
    let g0 = pre.guards;
    if crate::cond::holders(g0, name).len() < r.limit {
        let gv = GuardView { name, last_live: now };
        let c = pre.counter;
        assert forall|k: int| 0 <= k < post.resources.len() implies (#[trigger] crate::cond::holders(
            post.guards,
            post.resources[k].name,
        )).len() <= post.resources[k].limit by {
            let m = pre.resources[k].name;
            lemma_holders_finite(g0, m);
            crate::cond::lemma_holders_insert(g0, c, gv, m);
            assert(crate::cond::holders(g0, m).len() <= pre.resources[k].limit);
            if m == name {
                assert(k == i);
            }
        }
        assert forall|t: u64| post.guards.contains_key(t) implies crate::cond::has_resource(
            post.resources,
            #[trigger] post.guards[t].name,
        ) by {
            if t != c {
                assert(g0.contains_key(t));
                assert(crate::cond::has_resource(pre.resources, g0[t].name));
            }
        }
    } else if crate::clock::elapsed_secs(now, r.last_check) > r.check_timeout {
        let kept = crate::cond::live_guards(g0, now, r.dead_timeout);
        assert forall|k: int| 0 <= k < post.resources.len() implies (#[trigger] crate::cond::holders(
            post.guards,
            post.resources[k].name,
        )).len() <= post.resources[k].limit by {
            let m = pre.resources[k].name;
            assert(post.resources[k].name == m);
            lemma_holders_finite(g0, m);
            assert(crate::cond::holders(kept, m).subset_of(crate::cond::holders(g0, m)));
            vstd::set_lib::lemma_len_subset(crate::cond::holders(kept, m), crate::cond::holders(g0, m));
            assert(crate::cond::holders(g0, m).len() <= pre.resources[k].limit);
        }
        assert forall|t: u64| post.guards.contains_key(t) implies crate::cond::has_resource(
            post.resources,
            #[trigger] post.guards[t].name,
        ) by {
            assert(g0.contains_key(t));
            assert(crate::cond::has_resource(pre.resources, g0[t].name));
            let w = choose|w: int| 0 <= w < pre.resources.len() && pre.resources[w].name == g0[t].name;
            assert(post.resources[w].name == g0[t].name);
        }
        assert(post.guards.dom() =~= g0.dom().filter(|t: u64| !crate::cond::is_dead(g0[t], now, r.dead_timeout)));
        g0.dom().lemma_len_filter(|t: u64| !crate::cond::is_dead(g0[t], now, r.dead_timeout));
    }
}

/// Removing a holder keeps the scheduler well formed.
pub proof fn lemma_remove_guard_keeps_limits(
    pre: SchedulerView,
    token: u64,
    post: SchedulerView,
    result: Option<bool>,
)
    requires
        pre.wf(),
        crate::cond::remove_guard_step(pre, token, post, result),
    ensures
        post.wf(),
{
    assert forall|k: int| 0 <= k < post.resources.len() implies (#[trigger] crate::cond::holders(
        post.guards,
        post.resources[k].name,
    )).len() <= post.resources[k].limit by {
        let m = pre.resources[k].name;
        lemma_holders_finite(pre.guards, m);
        crate::cond::lemma_holders_remove(pre.guards, token, m);
        assert(crate::cond::holders(pre.guards, m).len() <= pre.resources[k].limit);
    }
    assert forall|t: u64| post.guards.contains_key(t) implies crate::cond::has_resource(
        post.resources,
        #[trigger] post.guards[t].name,
    ) by {
        assert(pre.guards.contains_key(t));
        assert(crate::cond::has_resource(pre.resources, pre.guards[t].name));
    }
}

/// A ping changes no resource's holders, and keeps the scheduler well formed.
pub proof fn lemma_ping_keeps_holders(
    pre: SchedulerView,
    token: u64,
    now: u64,
    post: SchedulerView,
    result: bool,
)
    requires
        pre.wf(),
        crate::cond::ping_step(pre, token, now, post, result),
    ensures
        post.wf(),
        post.guards.dom() == pre.guards.dom(),
        forall|name: Seq<char>|
            #[trigger] crate::cond::holders(post.guards, name) == crate::cond::holders(pre.guards, name),
{
    if result {
        let gv = GuardView { name: pre.guards[token].name, last_live: now };
        assert forall|name: Seq<char>|
            #[trigger] crate::cond::holders(post.guards, name) == crate::cond::holders(pre.guards, name) by {
            crate::cond::lemma_holders_insert(pre.guards, token, gv, name);
            if gv.name == name {
                assert(crate::cond::holders(pre.guards, name).insert(token) =~= crate::cond::holders(pre.guards, name));
            } else {
                assert(crate::cond::holders(pre.guards, name).remove(token) =~= crate::cond::holders(pre.guards, name));
            }
        }
        assert(post.guards.dom() =~= pre.guards.dom());
        assert forall|k: int| 0 <= k < post.resources.len() implies (#[trigger] crate::cond::holders(
            post.guards,
            post.resources[k].name,
        )).len() <= post.resources[k].limit by {
            assert(crate::cond::holders(post.guards, pre.resources[k].name) == crate::cond::holders(pre.guards, pre.resources[k].name));
        }
        assert forall|t: u64| post.guards.contains_key(t) implies crate::cond::has_resource(
            post.resources,
            #[trigger] post.guards[t].name,
        ) by {
            assert(pre.guards.contains_key(t));
            assert(crate::cond::has_resource(pre.resources, pre.guards[t].name));
        }
    }
}

/// A token that `try_access` grants is held afterwards, under the resource
/// asked for; removing it then answers `Some(true)` and leaves the holders
/// as they were before the grant, less any holder the token had replaced.
pub proof fn lemma_grant_then_remove(
    pre: SchedulerView,
    name: Seq<char>,
    now: u64,
    mid: SchedulerView,
    token: u64,
    post: SchedulerView,
    result: Option<bool>,
)
    requires
        crate::cond::try_access_step(pre, name, now, mid, Some(token)),
        crate::cond::remove_guard_step(mid, token, post, result),
    ensures
        mid.guards.contains_key(token),
        mid.guards[token].name == name,
        result == Some(true),
        post.guards == pre.guards.remove(token),
        post.resources == pre.resources,
{
    assert(post.guards =~= pre.guards.remove(token));
}

/// Removing a token a second time answers `None` and changes nothing.
pub proof fn lemma_remove_twice(
    pre: SchedulerView,
    token: u64,
    mid: SchedulerView,
    first: Option<bool>,
    post: SchedulerView,
    second: Option<bool>,
)
    requires
        crate::cond::remove_guard_step(pre, token, mid, first),
        crate::cond::remove_guard_step(mid, token, post, second),
    ensures
        second is None,
        post == mid,
{
    assert(post.guards =~= mid.guards);
}

/// Releasing a holder of a resource frees a place: the next `try_access`
/// of that resource is granted, whatever the time.
pub proof fn lemma_release_frees_place(
    pre: SchedulerView,
    token: u64,
    mid: SchedulerView,
    removed: Option<bool>,
    now: u64,
    post: SchedulerView,
    result: Option<u64>,
)
    requires
        pre.wf(),
        pre.guards.contains_key(token),
        crate::cond::remove_guard_step(pre, token, mid, removed),
        crate::cond::try_access_step(mid, pre.guards[token].name, now, post, result),
    ensures
        result == Some(mid.counter),
{
    let name = pre.guards[token].name;
    assert(crate::cond::has_resource(pre.resources, name));
    let i = crate::cond::resource_index(mid.resources, name);
    lemma_holders_finite(pre.guards, name);
    crate::cond::lemma_holders_remove(pre.guards, token, name);
    assert(crate::cond::holders(pre.guards, name).contains(token));
    assert(crate::cond::holders(pre.guards, name).len() <= pre.resources[i].limit);
}

/// A granted token can be pinged: the ping answers that its holder is alive.
pub proof fn lemma_granted_token_pings(
    pre: SchedulerView,
    name: Seq<char>,
    now: u64,
    mid: SchedulerView,
    token: u64,
    later: u64,
    post: SchedulerView,
    alive: bool,
)
    requires
        crate::cond::try_access_step(pre, name, now, mid, Some(token)),
        crate::cond::ping_step(mid, token, later, post, alive),
    ensures
        alive,
        post.guards[token] == (GuardView { name, last_live: later }),
{
}

/// A resource with a positive limit and no holder is granted.
pub proof fn lemma_free_resource_granted(
    pre: SchedulerView,
    name: Seq<char>,
    now: u64,
    post: SchedulerView,
    result: Option<u64>,
)
    requires
        crate::cond::has_resource(pre.resources, name),
        pre.resources[crate::cond::resource_index(pre.resources, name)].limit > 0,
        crate::cond::holders(pre.guards, name) == Set::<u64>::empty(),
        crate::cond::try_access_step(pre, name, now, post, result),
    ensures
        result == Some(pre.counter),
        post.guards.contains_key(pre.counter),
{
}

/// `try_access` never takes away a holder that is alive by the dead timeout
/// of the resource asked for: whoever held a token before still holds one
/// under that token afterwards.
pub proof fn lemma_live_holder_kept(
    pre: SchedulerView,
    name: Seq<char>,
    now: u64,
    post: SchedulerView,
    result: Option<u64>,
    token: u64,
)
    requires
        crate::cond::has_resource(pre.resources, name),
        pre.guards.contains_key(token),
        !crate::cond::is_dead(
            pre.guards[token],
            now,
            pre.resources[crate::cond::resource_index(pre.resources, name)].dead_timeout,
        ),
        crate::cond::try_access_step(pre, name, now, post, result),
    ensures
        post.guards.contains_key(token),
{
}

/// All held tokens are below the token counter.
pub open spec fn tokens_below_counter(v: SchedulerView) -> bool {
    forall|t: u64| v.guards.contains_key(t) ==> t < v.counter
}

/// Until the token counter wraps around, a granted token is held by no one
/// else, and every held token stays below the counter.
pub proof fn lemma_granted_token_is_fresh(
    pre: SchedulerView,
    name: Seq<char>,
    now: u64,
    post: SchedulerView,
    result: Option<u64>,
)
    requires
        tokens_below_counter(pre),
        pre.counter < u64::MAX,
        crate::cond::try_access_step(pre, name, now, post, result),
    ensures
        result matches Some(t) ==> !pre.guards.contains_key(t),
        tokens_below_counter(post),
{
}

/// Removing and pinging keep every held token below the counter.
pub proof fn lemma_tokens_stay_below_counter(
    pre: SchedulerView,
    token: u64,
    now: u64,
    removed_post: SchedulerView,
    removed: Option<bool>,
    pinged_post: SchedulerView,
    alive: bool,
)
    requires
        tokens_below_counter(pre),
        crate::cond::remove_guard_step(pre, token, removed_post, removed),
        crate::cond::ping_step(pre, token, now, pinged_post, alive),
    ensures
        tokens_below_counter(removed_post),
        tokens_below_counter(pinged_post),
{
}

/// A call on the scheduler, as plain values.
pub ghost enum Call {
    TryAccess { name: Seq<char>, now: u64 },
    RemoveGuard { token: u64 },
    Ping { token: u64, now: u64 },
}

/// The answer to a call, as plain values.
pub ghost enum Answer {
    Granted(Option<u64>),
    Removed(Option<bool>),
    Alive(bool),
}

/// The call `call` takes the scheduler from `pre` to `post` with answer `answer`.
pub open spec fn step(pre: SchedulerView, call: Call, post: SchedulerView, answer: Answer) -> bool {
    match call {
        Call::TryAccess { name, now } => answer matches Answer::Granted(r)
            && crate::cond::try_access_step(pre, name, now, post, r),
        Call::RemoveGuard { token } => answer matches Answer::Removed(r)
            && crate::cond::remove_guard_step(pre, token, post, r),
        Call::Ping { token, now } => answer matches Answer::Alive(r) && crate::cond::ping_step(
            pre,
            token,
            now,
            post,
            r,
        ),
    }
}

/// `states[i]` is taken to `states[i + 1]` by `calls[i]` with answer
/// `answers[i]`. The calls of `SchedulerState` each ensure `step` of their
/// call and answer, so the views before and after a sequence of them form a
/// run.
pub open spec fn is_run(states: Seq<SchedulerView>, calls: Seq<Call>, answers: Seq<Answer>) -> bool {
    &&& states.len() == calls.len() + 1
    &&& answers.len() == calls.len()
    &&& forall|i: int|
        0 <= i < calls.len() ==> #[trigger] step(states[i], calls[i], states[i + 1], answers[i])
}

/// The token counter never reaches its largest value in the run, so it
/// never wraps around.
pub open spec fn no_wrap(states: Seq<SchedulerView>) -> bool {
    forall|i: int| 0 <= i < states.len() ==> #[trigger] states[i].counter < u64::MAX
}

/// Over a run in which the counter does not wrap, the counter never goes
/// back, and every token granted is larger than every token granted before.
/// Since each call of `SchedulerState` ensures `step`, this holds of any
/// sequence of calls on one scheduler.
pub proof fn lemma_tokens_increase(
    states: Seq<SchedulerView>,
    calls: Seq<Call>,
    answers: Seq<Answer>,
    i: int,
    j: int,
)
    requires
        is_run(states, calls, answers),
        no_wrap(states),
        0 <= i <= j < states.len(),
    ensures
        states[i].counter <= states[j].counter,
        i < j ==> (answers[i] matches Answer::Granted(Some(t)) ==> t < states[j].counter),
        i < j < calls.len() ==> (answers[i] matches Answer::Granted(Some(t1)) ==> (
        answers[j] matches Answer::Granted(Some(t2)) ==> t1 < t2)),
    decreases j - i,
{
    if i < j {
        lemma_tokens_increase(states, calls, answers, i + 1, j);
        assert(step(states[i], calls[i], states[i + 1], answers[i]));
        assert(states[i].counter < u64::MAX);
        if j < calls.len() {
            assert(step(states[j], calls[j], states[j + 1], answers[j]));
        }
    }
}

/// Over a run in which the counter does not wrap, a token that is not held
/// and is below the counter at some point (say, one removed by
/// `remove_guard` or reclaimed as dead) is never held again: every later
/// ping of it answers `false` and every later removal `None`. Since each
/// call of `SchedulerState` ensures `step`, this holds of any sequence of
/// calls on one scheduler.
pub proof fn lemma_removed_token_never_revived(
    states: Seq<SchedulerView>,
    calls: Seq<Call>,
    answers: Seq<Answer>,
    k: int,
    token: u64,
    j: int,
)
    requires
        is_run(states, calls, answers),
        no_wrap(states),
        0 <= k <= j < states.len(),
        !states[k].guards.contains_key(token),
        token < states[k].counter,
    ensures
        !states[j].guards.contains_key(token),
        token < states[j].counter,
        j < calls.len() ==> (calls[j] matches Call::Ping { token: t, .. } && t == token ==> answers[j]
            == Answer::Alive(false)),
        j < calls.len() ==> (calls[j] matches Call::RemoveGuard { token: t } && t == token
            ==> answers[j] == Answer::Removed(None)),
    decreases j - k,
{
    if k < j {
        lemma_removed_token_never_revived(states, calls, answers, k, token, j - 1);
        let i = j - 1;
        assert(step(states[i], calls[i], states[i + 1], answers[i]));
        assert(states[i].counter < u64::MAX);
    }
    if j < calls.len() {
        assert(step(states[j], calls[j], states[j + 1], answers[j]));
    }
}

/// The call's time, if it has one, is at least `t`.
pub open spec fn call_not_before(call: Call, t: u64) -> bool {
    match call {
        Call::TryAccess { now, .. } => now >= t,
        Call::RemoveGuard { .. } => true,
        Call::Ping { now, .. } => now >= t,
    }
}

/// A call made no earlier than every time the scheduler has recorded (as
/// the calls that read the scheduler's clock are) never moves a recorded
/// time back: a holder's last sign of life and a resource's last check only
/// ever move forward.
pub proof fn lemma_times_never_go_back(
    pre: SchedulerView,
    t: u64,
    call: Call,
    post: SchedulerView,
    answer: Answer,
)
    requires
        crate::cond::times_within(pre, t),
        call_not_before(call, t),
        step(pre, call, post, answer),
    ensures
        forall|k: u64|
            pre.guards.contains_key(k) && post.guards.contains_key(k) ==> pre.guards[k].last_live
                <= #[trigger] post.guards[k].last_live,
        post.resources.len() == pre.resources.len(),
        forall|i: int|
            0 <= i < post.resources.len() ==> pre.resources[i].last_check
                <= #[trigger] post.resources[i].last_check,
{
    assert forall|k: u64|
        pre.guards.contains_key(k) && post.guards.contains_key(k) implies pre.guards[k].last_live
            <= #[trigger] post.guards[k].last_live by {
        assert(pre.guards[k].last_live <= t);
    }
    assert forall|i: int| 0 <= i < post.resources.len() implies pre.resources[i].last_check
        <= #[trigger] post.resources[i].last_check by {
        assert(pre.resources[i].last_check <= t);
    }
}

/// A request for a name that is no configured resource is refused and
/// changes nothing: the same resources, the same holders, the same counter.
pub proof fn lemma_unknown_name_changes_nothing(
    pre: SchedulerView,
    name: Seq<char>,
    now: u64,
    post: SchedulerView,
    result: Option<u64>,
)
    requires
        forall|i: int| 0 <= i < pre.resources.len() ==> #[trigger] pre.resources[i].name != name,
        crate::cond::try_access_step(pre, name, now, post, result),
    ensures
        result is None,
        post.resources == pre.resources,
        post.guards == pre.guards,
        post.counter == pre.counter,
{
}

/// Whatever name is asked for, a request never removes a holder that is
/// alive by the dead timeout of every configured resource.
pub proof fn lemma_request_keeps_holders_alive_everywhere(
    pre: SchedulerView,
    name: Seq<char>,
    now: u64,
    post: SchedulerView,
    result: Option<u64>,
    token: u64,
)
    requires
        pre.guards.contains_key(token),
        forall|i: int|
            0 <= i < pre.resources.len() ==> crate::clock::elapsed_secs(now, pre.guards[token].last_live)
                <= #[trigger] pre.resources[i].dead_timeout,
        crate::cond::try_access_step(pre, name, now, post, result),
    ensures
        post.guards.contains_key(token),
{
    if crate::cond::has_resource(pre.resources, name) {
        let i = crate::cond::resource_index(pre.resources, name);
        assert(crate::clock::elapsed_secs(now, pre.guards[token].last_live) <= pre.resources[i].dead_timeout);
    }
}

/// A refused request for a full resource at `now`: the counter stays, the
/// other resources stay, and
/// - when more whole seconds than the resource's check timeout have passed
///   since its last check, its last check becomes `now` and exactly the
///   holders (of any resource) silent for more whole seconds than its dead
///   timeout are removed, the others kept as they were;
/// - otherwise its last check and all holders stay as they were.
pub proof fn lemma_full_resource_check(
    pre: SchedulerView,
    name: Seq<char>,
    now: u64,
    post: SchedulerView,
    result: Option<u64>,
)
    requires
        crate::cond::has_resource(pre.resources, name),
        crate::cond::holders(pre.guards, name).len() >= pre.resources[crate::cond::resource_index(
            pre.resources,
            name,
        )].limit,
        crate::cond::try_access_step(pre, name, now, post, result),
    ensures
        result is None,
        post.counter == pre.counter,
        post.resources.len() == pre.resources.len(),
        ({
            let i = crate::cond::resource_index(pre.resources, name);
            let r = pre.resources[i];
            &&& forall|j: int| 0 <= j < pre.resources.len() && j != i ==> #[trigger] post.resources[j] == pre.resources[j]
            &&& post.resources[i].name == r.name
            &&& post.resources[i].limit == r.limit
            &&& post.resources[i].check_timeout == r.check_timeout
            &&& post.resources[i].dead_timeout == r.dead_timeout
            &&& if crate::clock::elapsed_secs(now, r.last_check) > r.check_timeout {
                &&& post.resources[i].last_check == now
                &&& forall|t: u64|
                    #[trigger] post.guards.contains_key(t) == (pre.guards.contains_key(t)
                        && crate::clock::elapsed_secs(now, pre.guards[t].last_live) <= r.dead_timeout)
                &&& forall|t: u64| post.guards.contains_key(t) ==> #[trigger] post.guards[t] == pre.guards[t]
            } else {
                &&& post.resources[i].last_check == r.last_check
                &&& post.guards == pre.guards
            }
        }),
{
}

/// Two refused requests for a full resource: after a request that ran the
/// dead-holder check at `now1`, a request at `now2` no more than the check
/// timeout whole seconds later removes no holder.
pub proof fn lemma_no_second_check_within_timeout(
    pre: SchedulerView,
    name: Seq<char>,
    now1: u64,
    mid: SchedulerView,
    first: Option<u64>,
    now2: u64,
    post: SchedulerView,
    second: Option<u64>,
)
    requires
        pre.wf(),
        crate::cond::has_resource(pre.resources, name),
        crate::cond::holders(pre.guards, name).len() >= pre.resources[crate::cond::resource_index(
            pre.resources,
            name,
        )].limit,
        crate::clock::elapsed_secs(now1, pre.resources[crate::cond::resource_index(pre.resources, name)].last_check)
            > pre.resources[crate::cond::resource_index(pre.resources, name)].check_timeout,
        crate::cond::try_access_step(pre, name, now1, mid, first),
        crate::clock::elapsed_secs(now2, now1) <= pre.resources[crate::cond::resource_index(
            pre.resources,
            name,
        )].check_timeout,
        crate::cond::holders(mid.guards, name).len() >= pre.resources[crate::cond::resource_index(
            pre.resources,
            name,
        )].limit,
        crate::cond::try_access_step(mid, name, now2, post, second),
    ensures
        second is None,
        post.guards == mid.guards,
{
    let i = crate::cond::resource_index(pre.resources, name);
    lemma_full_resource_check(pre, name, now1, mid, first);
    assert(mid.resources[i].name == name);
    assert(crate::cond::has_resource(mid.resources, name));
    let k = crate::cond::resource_index(mid.resources, name);
    assert(mid.resources[k].name == name);
    if k != i {
        assert(pre.resources[k] == mid.resources[k]);
        assert(pre.resources[k].name != pre.resources[i].name);
    }
    lemma_full_resource_check(mid, name, now2, post, second);
}

/// A ping of a held token at `now` stamps its holder alive at `now` and
/// keeps the resource it holds; a later request at `later_now`, no more
/// whole seconds after `now` than the dead timeout of any resource, keeps
/// that holder.
pub proof fn lemma_pinging_holder_survives(
    pre: SchedulerView,
    token: u64,
    now: u64,
    mid: SchedulerView,
    alive: bool,
    name: Seq<char>,
    later_now: u64,
    post: SchedulerView,
    result: Option<u64>,
)
    requires
        pre.guards.contains_key(token),
        crate::cond::ping_step(pre, token, now, mid, alive),
        forall|i: int|
            0 <= i < mid.resources.len() ==> crate::clock::elapsed_secs(later_now, now)
                <= #[trigger] mid.resources[i].dead_timeout,
        crate::cond::try_access_step(mid, name, later_now, post, result),
    ensures
        alive,
        mid.guards.contains_key(token),
        mid.guards[token].last_live == now,
        mid.guards[token].name == pre.guards[token].name,
        post.guards.contains_key(token),
{
    lemma_request_keeps_holders_alive_everywhere(mid, name, later_now, post, result, token);
}

} // verus!
