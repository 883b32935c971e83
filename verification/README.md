# mikebom-operator

A Kubernetes operator that has the container images of some namespaces scanned, one Job per image,
and reports the outcome on a `NamespaceScan` resource. Its decisions are verified with Verus.

- `src/` is the library. Every function states what it returns, and Verus proves it. It makes no
  call to a cluster.
  - `scan_job` builds the three-container Job for an image.
  - `reconcile` decides, step by step, what to do about a resource: `scan_orchestrator` finds the
    images and has Jobs created, `status_aggregator` reads what the Jobs have come to, `scheduler`
    says when to scan again, and `namespace_scan` puts these together.
  - `status` computes what is reported.
  - `leader` decides about the leader-election lease.
  - `text`, `text_map`, `time`, `digest`, `k8s`, `kube` and `crds` hold what the others are built
    from.
- `app/` is the program around it: it talks to the cluster, hands the library what came back, and
  does what the library says next.
- `tests/` runs the library on concrete values, with the real `chrono`, `cron`, `humantime` and
  `sha2` behind it.

What the library takes on trust from other crates is marked `external_body` or
`assume_specification`, with a comment that says what is claimed.
