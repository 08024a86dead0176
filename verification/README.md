# pluggie

A plugin host. Plugins are shared libraries that receive a context through
which they register and send events, subscribe handlers with a priority,
expose values to each other and log messages.

- `src/` is the verified library: plugin identities (`plugin`), name hashes
  (`event`), the shared state with its event channels kept in dispatch order
  and its exposed values (`internal_pluggie_context`), the hooks that run after
  a dispatch (`event_hooks`), log lines (`logging`), tuple-call adapters
  (`curry`) and the FFI-stable collections of `abi_stable` that the state is
  kept in (`stable_collections`).
- `app/` is the host program and the thread-safe, pointer-level plumbing
  around the library: locks, closures stored as handles, library loading.
- `tests/` exercises the library on concrete values.
