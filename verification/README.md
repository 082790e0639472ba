# Ember

The core of a WebAssembly edge runtime for the component model, verified with
[Verus](https://github.com/verus-lang/verus).

Ember runs component-model components for many tenants in one process. It
isolates every tenant inside a resource-accounted sandbox, denies egress by
default, hot-reloads components from an OCI registry by pinned digest, and
exposes a pluggable HTTP ingress.

- `src/` is the library. It holds the decisions of the runtime, each function
  with a contract that Verus proves: sizes and configuration, tenant ids,
  egress rules, scratch storage, artifact loading and the guest contract,
  content addressing, reload governance, instance pooling, and the conversion
  between HTTP and the component ABI.
- `app/` is the program around it: command line, files, sockets, clocks, and
  the Wasmtime engine. It hands plain values to the library and carries out
  what comes back.
- `tests/` runs the library on concrete values.

What an outside crate computes for the library stands behind a small function
whose doc comment names the outside function and what is taken for granted of
it: hashes (`sha2`), hexadecimal (`hex`), header names and values (`http`),
JSON strings (`serde_json`), OCI references (`oci-distribution`), and the
structure of WebAssembly binaries (`wasmparser`).
