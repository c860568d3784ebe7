# switchboard_controller

The control plane of a switchboard deployment, written in Verus: the functions of the
library in `src/` carry contracts that Verus proves. Ten small wrappers around `dirs`,
`rand`, `uuid`, `http` and std (`String::push`, `Path::file_name`, `Path::starts_with`)
are trusted: Verus takes their contracts as given, and each says in its doc comment what
it claims of the outside function; `http`'s URI types are declared to Verus as opaque.

- `src/controller/kernel*` — kernel addresses, the table of tracked kernels, discovery
  plans, and the all-or-nothing rollout of a configuration as a state machine
  (prepare, commit, abort, roll back).
- `src/controller/resolve/k8s/service_config*` — the services, listeners, routes and
  certificates built from Gateway API gateways and their HTTP, TCP and TLS routes,
  and which gateways and routes the controller manages.
- `src/controller/resource/gateway/k8s.rs` — the HTTP router of a gateway, rule by rule.
- `src/controller/interface`, `link_resolver.rs`, `resource/tls` — the HTTP interface's
  data, links, certificate places.
- `src/cli` — the command-line tools' decisions (`sb`, `sbc`, `sbk`).
- `src/text.rs`, `order.rs`, `keyed.rs`, `seqs.rs`, `paths.rs` — text, ordering, keyed
  maps and paths, with their laws.

`app/` holds what cannot be proved here: argument parsing, files, sockets, Kubernetes
requests, and the loop that carries out a rollout's requests. `tests/` exercises the
library on concrete values.
