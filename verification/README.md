# pi-mesh

A mesh of coding agents. On each machine a service keeps track of the agents that registered
with it, tells its peers about them, and passes messages and requests to the agents that they
are addressed to, here or on another machine. Connectors, programs named `pi-mesh-…` on the
path, find peers and say which callers are let in.

- `src/` is the library: what the service knows and the steps it takes, the command line, and
  the pages that are shown. It is written in Verus. Each function states what it does over
  mathematical models, and the laws of the mesh as a whole stand in `src/laws.rs` and beside
  the functions that they speak of.
- `app/` is the program around it: sockets, processes, the clock and the environment.
  Under the name `pi-mesh-tailscale` the program is the connector for Tailscale: a link of
  that name on the path enables it.
- `tests/` runs the library on concrete values.

`src/mesh.rs` is the place to start: it describes the state of a service and its steps in
mathematical terms. `src/state.rs` carries them out, and `src/steps.rs` says what the program
is told to do next.

JSON text, URLs, random ids and the host name come from `serde_json`, `reqwest`, `uuid` and
`hostname`. The functions that call them are marked `#[verifier::external_body]`, and their
comments say what is taken on trust.
