# rr_hooks

Record and replay hooks for the boundary between core WebAssembly and its host,
verified with Verus.

A store can record the events that cross the boundary (a module is instantiated,
a WebAssembly function is called or returns, a host function is called or
returns), or replay a trace of such events. During a replay no host function
runs: its results come from the trace, and the calls of WebAssembly functions
that it made are made again.

- `src/core_hooks.rs`: the hooks
- `src/store.rs`: what a store records, and what it has still to replay
- `src/events.rs`, `src/args.rs`, `src/values.rs`: the events of a trace and the
  values in them
- `src/error.rs`, `src/text.rs`: errors and their messages
- `src/module.rs`: what the hooks read of a module
- `src/laws.rs`, `src/balance.rs`: what holds of the hooks taken together
- `app/`: the hooks as an embedder calls them, with logging
