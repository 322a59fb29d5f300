# k3rs

The core of a lightweight container orchestrator, written in Rust and verified
with Verus.

- `src/` is the library. It holds what the orchestrator decides and computes:
  reconciling deployments, replica sets, daemon sets, jobs, cron jobs and
  autoscalers; node health and eviction; endpoints and virtual networks; API
  requests and their answers; backups and restores; metrics; OCI configurations
  and images; and how micro-VMs are configured, booted and taken down. Every
  function states its result, and Verus proves it.
- `app/` is ordinary Rust around the library: the HTTP server, the controller
  loops, the container backends, and everything that touches the network, the
  file system or other processes. It hands plain values to the library and
  carries out what comes back.
- `tests/` runs the library on concrete values, together with the crates that it
  calls.

Controllers and handlers follow one pattern: the application lists what the store
holds, a library function turns the listing into a plan, and the application
writes the plan back. Points in time are nanoseconds since the Unix epoch, within
the range that chrono can hold.

What the library takes from other crates (JSON, compression, timestamps, random
identifiers, image references, the concurrent map) stands behind small functions
whose comments say what is claimed of the crate.
