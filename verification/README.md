# tokenx

A token proxy: a resolver turns raw tokens into resolved identities, and hooks
run around every resolution (`pre_hook` with the raw token before it,
`post_hook` with the resolver's audit event after it), in registration order.

- `src/hooks.rs`: the `TokenResolver` and `Hook` traits that users implement.
- `src/event.rs`: `DefaultAuditEvent`.
- `src/dispatch.rs`: the schedule of one request as a state machine
  (`next_step`), with its laws.
- `src/proxy.rs`: the blocking `TokenProxy`, which drives that state machine.
  Registering a hook keeps the resolver and the earlier hooks and puts the new
  hook in a last slot of its own; a request returns the resolver's value for
  its token. The order of the hook calls is the schedule in `src/dispatch.rs`.
- `app/lib.rs`: the asynchronous proxy (`AsyncTokenProxy`, `AsyncHook`,
  `AsyncTokenResolver`), which drives the same schedule with awaits.
