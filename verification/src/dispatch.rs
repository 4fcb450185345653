//! The order in which one request visits the hook chain and the resolver.
//!
//! A request over `n` registered hooks follows a fixed schedule: the pre-hook
//! of every hook in registration order, then the resolver, then the post-hook
//! of every hook in registration order, then the answer is handed back.
//! `next_step` is that schedule as a state machine. Both proxies are drivers
//! of it: they take one step at a time and perform the action it names (the
//! asynchronous one awaiting between steps). The laws below are stated of the
//! schedule and of `request_calls`, the calls that one request makes.
use vstd::prelude::*;

verus! {

/// Where a request stands in its schedule.
#[derive(Debug, Clone, Copy, PartialEq, Eq, Structural)]
pub enum Phase {
    /// The pre-hook of the hook at this position runs next; at the end of the
    /// chain, the resolver runs next.
    PreHooks(usize),
    /// The post-hook of the hook at this position runs next; at the end of the
    /// chain, the request is finished.
    PostHooks(usize),
    /// Every step has been taken.
    Done,
}

/// What the driver of a request does next.
#[derive(Debug, Clone, Copy, PartialEq, Eq, Structural)]
pub enum Action {
    /// Call `pre_hook` on the hook at this position, with the raw token.
    RunPreHook(usize),
    /// Hand the token to the resolver.
    Resolve,
    /// Call `post_hook` on the hook at this position, with the resolver's event.
    RunPostHook(usize),
    /// Hand the resolved value back to the caller.
    Finish,
}

/// A call made while serving one request, with what it was given.
pub enum HookCall<K, E> {
    /// `pre_hook` of the hook at this position, given this token.
    Pre(usize, K),
    /// The resolver, given this token.
    Resolve(K),
    /// `post_hook` of the hook at this position, given this event.
    Post(usize, E),
}

/// The whole schedule of a request over `n` hooks.
pub open spec fn request_schedule(n: nat) -> Seq<Action> {
    Seq::new(n, |i: int| Action::RunPreHook(i as usize))
        + seq![Action::Resolve]
        + Seq::new(n, |i: int| Action::RunPostHook(i as usize))
        + seq![Action::Finish]
}

/// How many steps of the schedule a phase has already taken; a position past
/// the end of a hook chain counts as the end of that chain.
pub open spec fn position(phase: Phase, n: nat) -> nat {
    match phase {
        Phase::PreHooks(i) => if i <= n { i as nat } else { n },
        Phase::PostHooks(i) => if i <= n { n + 1 + i as nat } else { n + 1 + n },
        Phase::Done => 2 * n + 2,
    }
}

/// The phase of a request that has taken `p` steps of its schedule.
pub open spec fn phase_at(p: nat, n: nat) -> Phase {
    if p <= n {
        Phase::PreHooks(p as usize)
    } else if p <= 2 * n + 1 {
        Phase::PostHooks((p - n - 1) as usize)
    } else {
        Phase::Done
    }
}

/// One step: the action at the current position of the schedule, and the
/// phase one position further; a finished request stays finished.
pub open spec fn step(phase: Phase, n: nat) -> (Phase, Action) {
    let p = position(phase, n);
    if p < 2 * n + 2 {
        (phase_at(p + 1, n), request_schedule(n)[p as int])
    } else {
        (Phase::Done, Action::Finish)
    }
}

/// The actions that `k` steps from `phase` produce.
pub open spec fn run(phase: Phase, n: nat, k: nat) -> Seq<Action>
    decreases k,
{
    if k == 0 {
        Seq::empty()
    } else {
        seq![step(phase, n).1] + run(step(phase, n).0, n, (k - 1) as nat)
    }
}

/// The call that an action stands for, given the request's token and the
/// event that the resolver produced.
pub open spec fn bind_action<K, E>(action: Action, token: K, event: E) -> HookCall<K, E> {
    match action {
        Action::RunPreHook(i) => HookCall::Pre(i, token),
        Action::RunPostHook(i) => HookCall::Post(i, event),
        _ => HookCall::Resolve(token),
    }
}

/// The pre-hook calls of the first `n` hooks, in registration order.
pub open spec fn pre_calls<K, E>(n: nat, token: K) -> Seq<HookCall<K, E>> {
    Seq::new(n, |i: int| HookCall::Pre(i as usize, token))
}

/// The post-hook calls of the first `n` hooks, in registration order.
pub open spec fn post_calls<K, E>(n: nat, event: E) -> Seq<HookCall<K, E>> {
    Seq::new(n, |i: int| HookCall::Post(i as usize, event))
}

/// Every call that serving one request over `n` hooks makes, in order.
pub open spec fn request_calls<K, E>(n: nat, token: K, event: E) -> Seq<HookCall<K, E>> {
    pre_calls(n, token) + seq![HookCall::Resolve(token)] + post_calls(n, event)
}

/// The phase in which every request starts.
pub fn start() -> (phase: Phase)
    ensures
        phase == Phase::PreHooks(0),
{
    Phase::PreHooks(0)
}

/// Takes one step of the schedule of a request over `hook_count` hooks.
pub fn next_step(phase: Phase, hook_count: usize) -> (out: (Phase, Action))
    ensures
        out == step(phase, hook_count as nat),
{
    let n = hook_count;
    match phase {
        Phase::PreHooks(i) => {
            if i < n {
                (Phase::PreHooks(i + 1), Action::RunPreHook(i))
            } else {
                (Phase::PostHooks(0), Action::Resolve)
            }
        },
        Phase::PostHooks(i) => {
            if i < n {
                (Phase::PostHooks(i + 1), Action::RunPostHook(i))
            } else {
                (Phase::Done, Action::Finish)
            }
        },
        Phase::Done => (Phase::Done, Action::Finish),
    }
}

/// The phase that `k` steps from `phase` reach.
pub open spec fn after(phase: Phase, n: nat, k: nat) -> Phase
    decreases k,
{
    if k == 0 {
        phase
    } else {
        after(step(phase, n).0, n, (k - 1) as nat)
    }
}

/// The schedule of a request over `n` hooks has `2n + 2` actions: the
/// pre-hooks of hooks `0..n`, the resolver, the post-hooks of hooks `0..n`,
/// and the answer.
pub proof fn lemma_schedule_shape(n: nat)
    requires
        n <= usize::MAX,
    ensures
        request_schedule(n).len() == 2 * n + 2,
        forall|i: int| 0 <= i < n ==> request_schedule(n)[i] == Action::RunPreHook(i as usize),
        request_schedule(n)[n as int] == Action::Resolve,
        forall|i: int|
            n + 1 <= i < 2 * n + 1 ==> request_schedule(n)[i] == Action::RunPostHook(
                (i - n - 1) as usize,
            ),
        request_schedule(n)[(2 * n + 1) as int] == Action::Finish,
{
}

/// Within one request, every pre-hook runs before the resolver, the resolver
/// runs before every post-hook, the pre-hooks run in registration order, the
/// post-hooks run in registration order, and handing back the answer comes last.
pub proof fn lemma_schedule_order(n: nat)
    requires
        n <= usize::MAX,
    ensures
        forall|j: int, k: int|
            0 <= j < 2 * n + 2 && 0 <= k < 2 * n + 2 && request_schedule(n)[j] is RunPreHook
                && request_schedule(n)[k] is Resolve ==> j < k,
        forall|j: int, k: int|
            0 <= j < 2 * n + 2 && 0 <= k < 2 * n + 2 && request_schedule(n)[j] is Resolve
                && request_schedule(n)[k] is RunPostHook ==> j < k,
        forall|j: int, k: int, a: usize, b: usize|
            0 <= j < 2 * n + 2 && 0 <= k < 2 * n + 2 && request_schedule(n)[j]
                == Action::RunPreHook(a) && request_schedule(n)[k] == Action::RunPreHook(b) && a
                < b ==> j < k,
        forall|j: int, k: int, a: usize, b: usize|
            0 <= j < 2 * n + 2 && 0 <= k < 2 * n + 2 && request_schedule(n)[j]
                == Action::RunPostHook(a) && request_schedule(n)[k] == Action::RunPostHook(b) && a
                < b ==> j < k,
        forall|j: int|
            0 <= j < 2 * n + 2 && request_schedule(n)[j] is Finish ==> j == 2 * n + 1,
{
    lemma_schedule_shape(n);
}

/// Within one request, each registered hook has its pre-hook run exactly once
/// and its post-hook run exactly once; no other hook position is called.
pub proof fn lemma_each_hook_runs_once(n: nat, h: usize)
    requires
        n <= usize::MAX,
    ensures
        h < n ==> request_schedule(n)[h as int] == Action::RunPreHook(h),
        h < n ==> request_schedule(n)[(n + 1 + h) as int] == Action::RunPostHook(h),
        forall|j: int|
            0 <= j < 2 * n + 2 && request_schedule(n)[j] == Action::RunPreHook(h) ==> h < n && j
                == h,
        forall|j: int|
            0 <= j < 2 * n + 2 && request_schedule(n)[j] == Action::RunPostHook(h) ==> h < n && j
                == n + 1 + h,
{
    lemma_schedule_shape(n);
}

/// `phase_at` and `position` undo each other on the positions of a schedule.
pub proof fn lemma_position_of_phase_at(p: nat, n: nat)
    requires
        n <= usize::MAX,
        p <= 2 * n + 2,
    ensures
        position(phase_at(p, n), n) == p,
{
}

/// Stepping from the phase at position `p`, `k` times, produces exactly the
/// next `k` actions of the schedule and reaches the phase at position `p + k`.
pub proof fn lemma_run_follows_schedule(n: nat, p: nat, k: nat)
    requires
        n <= usize::MAX,
        p + k <= 2 * n + 2,
    ensures
        run(phase_at(p, n), n, k) == request_schedule(n).subrange(p as int, (p + k) as int),
        after(phase_at(p, n), n, k) == phase_at(p + k, n),
    decreases k,
{
    if k > 0 {
        lemma_position_of_phase_at(p, n);
        lemma_run_follows_schedule(n, p + 1, (k - 1) as nat);
        assert(run(phase_at(p, n), n, k) =~= request_schedule(n).subrange(
            p as int,
            (p + k) as int,
        ));
    }
}

/// A request started with `start` and stepped `2n + 2` times has taken every
/// action of its schedule, in order, and is finished; a finished request
/// stays finished.
pub proof fn lemma_request_runs_to_completion(n: nat)
    requires
        n <= usize::MAX,
    ensures
        run(Phase::PreHooks(0), n, 2 * n + 2) == request_schedule(n),
        after(Phase::PreHooks(0), n, 2 * n + 2) == Phase::Done,
        step(Phase::Done, n) == (Phase::Done, Action::Finish),
{
    lemma_run_follows_schedule(n, 0, 2 * n + 2);
    lemma_schedule_shape(n);
    assert(request_schedule(n).subrange(0, (2 * n + 2) as int) =~= request_schedule(n));
}

/// The calls of a request are the actions of its schedule up to the answer,
/// each bound to the request's token or to the resolver's event.
pub proof fn lemma_calls_follow_schedule<K, E>(n: nat, token: K, event: E)
    requires
        n <= usize::MAX,
    ensures
        request_calls(n, token, event) == request_schedule(n).take((2 * n + 1) as int).map_values(
            |a: Action| bind_action(a, token, event),
        ),
{
    lemma_schedule_shape(n);
    assert(request_calls(n, token, event) =~= request_schedule(n).take(
        (2 * n + 1) as int,
    ).map_values(|a: Action| bind_action(a, token, event)));
}

/// Serving one request over `n` hooks makes `2n + 1` calls:
/// - the pre-hook of every hook `h < n` exactly once, at place `h`, with the
///   token, and no pre-hook of any other position;
/// - the resolver exactly once, at place `n`, with the token, so after every
///   pre-hook;
/// - the post-hook of every hook `h < n` exactly once, at place `n + 1 + h`,
///   with the event that the resolver produced, and no post-hook of any other
///   position;
/// - so pre-hooks and post-hooks each run in registration order.
pub proof fn lemma_request_calls<K, E>(n: nat, token: K, event: E)
    requires
        n <= usize::MAX,
    ensures
        request_calls(n, token, event).len() == 2 * n + 1,
        forall|h: int|
            0 <= h < n ==> request_calls(n, token, event)[h] == HookCall::<K, E>::Pre(
                h as usize,
                token,
            ),
        forall|j: int|
            0 <= j < 2 * n + 1 && (#[trigger] request_calls(n, token, event)[j]) is Pre ==> {
                &&& j < n
                &&& request_calls(n, token, event)[j]->Pre_0 == j
                &&& request_calls(n, token, event)[j]->Pre_1 == token
            },
        request_calls(n, token, event)[n as int] == HookCall::<K, E>::Resolve(token),
        forall|j: int|
            0 <= j < 2 * n + 1 && (#[trigger] request_calls(n, token, event)[j]) is Resolve ==> j
                == n,
        forall|j: int|
            n + 1 <= j < 2 * n + 1 ==> request_calls(n, token, event)[j] == HookCall::<K, E>::Post(
                (j - n - 1) as usize,
                event,
            ),
        forall|j: int|
            0 <= j < 2 * n + 1 && (#[trigger] request_calls(n, token, event)[j]) is Post ==> {
                &&& n < j
                &&& request_calls(n, token, event)[j]->Post_0 == j - n - 1
                &&& request_calls(n, token, event)[j]->Post_1 == event
            },
        forall|j: int, k: int|
            0 <= j < 2 * n + 1 && 0 <= k < 2 * n + 1 && (#[trigger] request_calls(
                n,
                token,
                event,
            )[j]) is Pre && (#[trigger] request_calls(n, token, event)[k]) is Pre
                && request_calls(n, token, event)[j]->Pre_0 < request_calls(
                n,
                token,
                event,
            )[k]->Pre_0 ==> j < k,
        forall|j: int, k: int|
            0 <= j < 2 * n + 1 && 0 <= k < 2 * n + 1 && (#[trigger] request_calls(
                n,
                token,
                event,
            )[j]) is Post && (#[trigger] request_calls(n, token, event)[k]) is Post
                && request_calls(n, token, event)[j]->Post_0 < request_calls(
                n,
                token,
                event,
            )[k]->Post_0 ==> j < k,
{
}

} // verus!
