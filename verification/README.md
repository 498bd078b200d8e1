# coop_deployer

Deployment of FAForever co-op maps and patch files, and management of
co-op campaigns, as a library whose logic is verified with Verus, plus a
small HTTP service around it.

- `src/` — the verified library. Map and patch deployments are state
  machines (`map::MapDeploy`, `patch::PatchDeploy`) that ask for one outside
  action at a time and are told what came of it; `deploy_all_maps` and
  `deploy_patches` drive them against the in-memory ports of `ports::TestPorts`.
  `map_laws`, `store_laws` and the end of `patch` hold the proved laws:
  redeploying unchanged content skips everything, a changed item gets the
  next version and its new checksum (a map's archive name carries the
  checksum's first eight characters, and a recorded map matches on the
  whole checksum or on those), dry runs write nothing and count as real
  runs do, counts cover every known item, and stored records read back as
  written. The machines also say why they skipped an item, for the service
  to log.
- `app/` — the service: async port traits, the real ports (Hydra, Postgres,
  disk, git, GitHub), the async drivers of the state machines, and the axum
  router.
- `tests/` — tests of the library through its public interface.
