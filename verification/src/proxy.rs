//! The blocking token proxy: a resolver with a chain of hooks around it.
use vstd::prelude::*;

use crate::dispatch::{
    lemma_position_of_phase_at, lemma_schedule_shape, next_step, phase_at, position, post_calls,
    pre_calls, request_calls, request_schedule, start, Action, HookCall,
};
use crate::hooks::{Hook, TokenResolver};

verus! {

/// One hook registered with a proxy.
#[verifier::reject_recursive_types(K)]
#[verifier::reject_recursive_types(E)]
pub struct RegisteredHook<K, E> {
    hook: Box<dyn Hook<K, E>>,
}

impl<K, E> RegisteredHook<K, E> {
    /// Whether this slot holds `hook`, boxed.
    pub closed spec fn holds<H: Hook<K, E> + 'static>(self, hook: H) -> bool {
        let boxed: Box<dyn Hook<K, E>> = Box::new(hook);
        self.hook == boxed
    }

    /// Boxes `hook` into a slot of its own.
    fn new<H: Hook<K, E> + 'static>(hook: H) -> (registered: Self)
        ensures
            registered.holds(hook),
    {
        RegisteredHook { hook: Box::new(hook) }
    }
}

/// Resolves tokens with a resolver, firing the registered hooks around each
/// resolution in the order of `dispatch::request_schedule`: every `pre_hook`
/// in registration order, then the resolver, then every `post_hook` in
/// registration order.
pub struct TokenProxy<T: TokenResolver> {
    resolver: T,
    hooks: Vec<RegisteredHook<T::Token, T::Event>>,
}

impl<T: TokenResolver> TokenProxy<T> {
    /// The registered hooks, in registration order.
    pub closed spec fn hooks(&self) -> Seq<RegisteredHook<T::Token, T::Event>> {
        self.hooks@
    }

    /// The resolver that the proxy hands tokens to.
    pub closed spec fn resolver(&self) -> T {
        self.resolver
    }

    /// A proxy around `resolver`, with no hooks.
    pub fn new(resolver: T) -> (proxy: Self)
        ensures
            proxy.resolver() == resolver,
            proxy.hooks().len() == 0,
    {
        TokenProxy { resolver, hooks: Vec::new() }
    }

    /// Registers `hook` after the hooks that are already registered; the
    /// resolver and the earlier hooks stay as they were, in their order.
    #[must_use]
    pub fn add_hook(self, hook: impl Hook<T::Token, T::Event> + 'static) -> (proxy: Self)
        ensures
            proxy.resolver() == self.resolver(),
            proxy.hooks().len() == self.hooks().len() + 1,
            proxy.hooks().take(self.hooks().len() as int) == self.hooks(),
            proxy.hooks().last().holds(hook),
    {
        let mut proxy = self;
        proxy.hooks.push(RegisteredHook::new(hook));
        proxy
    }

    /// Serves one request: fires `pre_hook` on every registered hook with
    /// the token, resolves the token, then fires `post_hook` on every
    /// registered hook with the resolver's event; returns the value that the
    /// resolver produced for `token`. It serves the request through
    /// `handle_request_traced`, whose contract states those calls.
    pub fn handle_request(&self, token: T::Token) -> (resolved: T::Resolved)
        ensures
            exists|event: T::Event|
                call_ensures(T::resolve, (&self.resolver(), token), (resolved, event)),
    {
        let (resolved, _calls) = self.handle_request_traced(token);
        resolved
    }

    /// Serves one request as `handle_request` does, performing the actions of
    /// `dispatch::next_step` one by one, and returns with the resolved value
    /// the record of the calls it made: each entry is the one returned by the
    /// function that made that call (`fire_pre`, `fire_post`) or written at
    /// the call of the resolver. The record is `request_calls` of the hook
    /// count, the token and the resolver's event; `lemma_request_calls` says
    /// what that sequence holds.
    pub fn handle_request_traced(&self, token: T::Token) -> (out: (
        T::Resolved,
        Ghost<Seq<HookCall<T::Token, T::Event>>>,
    ))
        ensures
            exists|event: T::Event|
                {
                    &&& call_ensures(T::resolve, (&self.resolver(), token), (out.0, event))
                    &&& out.1@ == request_calls(self.hooks().len(), token, event)
                },
    {
        let n = self.hooks.len();
        let mut pending: Option<T::Token> = Some(token);
        let mut answer: Option<T::Resolved> = None;
        let mut event: Option<T::Event> = None;
        let ghost mut calls: Seq<HookCall<T::Token, T::Event>> = Seq::empty();
        let mut phase = start();
        proof {
            lemma_schedule_shape(n as nat);
        }
        loop
            invariant
                n == self.hooks@.len(),
                position(phase, n as nat) <= 2 * n + 1,
                phase == phase_at(position(phase, n as nat), n as nat),
                request_schedule(n as nat).len() == 2 * n + 2,
                forall|i: int|
                    0 <= i < n ==> request_schedule(n as nat)[i] == Action::RunPreHook(i as usize),
                request_schedule(n as nat)[n as int] == Action::Resolve,
                forall|i: int|
                    n + 1 <= i < 2 * n + 1 ==> request_schedule(n as nat)[i]
                        == Action::RunPostHook((i - n - 1) as usize),
                request_schedule(n as nat)[(2 * n + 1) as int] == Action::Finish,
                position(phase, n as nat) <= n ==> {
                    &&& pending == Some(token)
                    &&& calls == pre_calls::<T::Token, T::Event>(
                        position(phase, n as nat),
                        token,
                    )
                },
                position(phase, n as nat) > n ==> {
                    &&& answer is Some
                    &&& event is Some
                    &&& call_ensures(
                        T::resolve,
                        (&self.resolver(), token),
                        (answer->0, event->0),
                    )
                    &&& calls == pre_calls::<T::Token, T::Event>(n as nat, token) + seq![
                        HookCall::Resolve(token),
                    ] + post_calls::<T::Token, T::Event>(
                        (position(phase, n as nat) - n - 1) as nat,
                        event->0,
                    )
                },
            decreases 2 * n + 2 - position(phase, n as nat),
        {
            let ghost p = position(phase, n as nat);
            let (next, action) = next_step(phase, n);
            proof {
                lemma_position_of_phase_at(p + 1, n as nat);
            }
            match action {
                Action::RunPreHook(i) => {
                    let fired = self.fire_pre(i, pending.as_ref().unwrap());
                    proof {
                        calls = calls.push(fired@);
                        assert(calls =~= pre_calls::<T::Token, T::Event>(p + 1, token));
                    }
                },
                Action::Resolve => {
                    let raw = pending.take().unwrap();
                    let (value, happened) = self.resolver.resolve(raw);
                    proof {
                        calls = calls.push(HookCall::Resolve(token));
                        assert(post_calls::<T::Token, T::Event>(0, happened) =~= Seq::empty());
                        assert(calls =~= pre_calls::<T::Token, T::Event>(n as nat, token) + seq![
                            HookCall::Resolve(token),
                        ] + post_calls::<T::Token, T::Event>(0, happened));
                    }
                    answer = Some(value);
                    event = Some(happened);
                },
                Action::RunPostHook(i) => {
                    let fired = self.fire_post(i, event.as_ref().unwrap());
                    proof {
                        calls = calls.push(fired@);
                        assert(post_calls::<T::Token, T::Event>((p - n) as nat, event->0)
                            =~= post_calls::<T::Token, T::Event>((p - n - 1) as nat, event->0).push(
                            HookCall::Post(i, event->0),
                        ));
                        assert(calls =~= pre_calls::<T::Token, T::Event>(n as nat, token) + seq![
                            HookCall::Resolve(token),
                        ] + post_calls::<T::Token, T::Event>((p - n) as nat, event->0));
                    }
                },
                Action::Finish => {
                    let value = answer.unwrap();
                    let out = (value, Ghost(calls));
                    assert(call_ensures(T::resolve, (&self.resolver(), token), (out.0, event->0)));
                    assert(out.1@ == request_calls(self.hooks().len(), token, event->0));
                    return out;
                },
            }
            phase = next;
        }
    }

    /// Calls `pre_hook` of the hook at `index` with `token`, and returns the
    /// record of that call.
    fn fire_pre(&self, index: usize, token: &T::Token) -> (fired: Ghost<
        HookCall<T::Token, T::Event>,
    >)
        requires
            index < self.hooks().len(),
        ensures
            fired@ == HookCall::<T::Token, T::Event>::Pre(index, *token),
    {
        self.hooks[index].hook.pre_hook(token);
        Ghost(HookCall::Pre(index, *token))
    }

    /// Calls `post_hook` of the hook at `index` with `event`, and returns the
    /// record of that call.
    fn fire_post(&self, index: usize, event: &T::Event) -> (fired: Ghost<
        HookCall<T::Token, T::Event>,
    >)
        requires
            index < self.hooks().len(),
        ensures
            fired@ == HookCall::<T::Token, T::Event>::Post(index, *event),
    {
        self.hooks[index].hook.post_hook(event);
        Ghost(HookCall::Post(index, *event))
    }
}

} // verus!
