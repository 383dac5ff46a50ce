# fidius (verified core)

The parts of the fidius plugin framework that decide things, written in Verus
and proved against their contracts:

- `frame`, `wire`, `error`: the stream frame format and its round trip.
- `hash`: FNV-1a and the order-independent interface hash.
- `descriptor`, `status`, `host_ffi`, `call_error`, `types`: descriptor
  fields, status codes and how a host-call result decodes.
- `package`, `discovery`: manifest rules, archive entry checks with their
  size/ratio/entry budget, archive naming and the package digest.
- `sandbox`, `netaddr`, `name_lookup`, `body_tee`, `egress_dispatch`, `http`,
  `naming`: the WASM sandbox's capability policy and two-key interface
  gating, the socket deny-list, resolve-and-pin, the replay capture behind
  the egress retry, the dispatch state machine that bounds that retry to
  one, request preparation, and WIT name conversions.
- `stream_marker`, `stream_ffi`, `chunk_stream`, `arena`: streaming and
  buffer handling.
- `python_stub`, `stub_source`: type hints and the stub file for Python
  plugins, read from the interface's Rust source (parsed with `syn`).
- `assoc`, `text`: association lists and string helpers the above share.

`app/` holds what touches files, processes, threads, foreign functions or
the WASM host imports, and calls into the library for every decision.
`tests/` exercises the library on concrete values.
