# stellar_k8s

The rules of an operator that runs Stellar nodes on Kubernetes, written in Verus.

`src/` is the library. It decides and computes; every function of it is verified
against its contract. Manifests are documents (`json`), which the contracts
describe member by member; what has to be done in the cluster is planned as a
list of steps (`controller::resources::plan`).

- `controller`: the manifests of a node, and the steps that bring them about;
  the order of a leaderboard.
- `crd`: the resources that users write, with their validation.
- `degradation`: what the operator may still do while parts of the control plane
  are down.
- `schema_registry`, `schema_evolution`: which schema may follow which, and how
  resources are converted.
- `federation_consistency`: how clusters come to agree.
- `data_residency`, `secrets_broker`, `security`, `webhook`, `mtls`, `telemetry`,
  `node_boot_verification`: who may run where, who gets which credential, when a
  certificate is good, what may leave the cluster, which node may join.
- `rollback_engine`, `incident`, `fair_share_rate_limiter`: when a deployment is
  taken back, when the network is split, how evenly a service is used.
- `json`, `json_text`, `str_map`, `text_map`, `text`, `digest`, `clock`,
  `wall_clock`: what the others are built on.

Outside crates are called through small functions whose contracts are taken on
trust; each says in its comment what it claims of the crate.

`app/` is the program: the command line, the cluster's API, files, the network,
and all that takes floating point.

`tests/` runs the library.
