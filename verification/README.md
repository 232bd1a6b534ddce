# backend

The decision logic of the war and affiliation services of a fleet backend,
verified with Verus.

- `src/` is the library. `war` holds the in-memory war cache and the
  at-war checks; `affiliation` and `bulk_affiliation` keep the character,
  corporation and alliance rows in step with ESI; `war_list` walks ESI's war
  list; `war_updater` decides how each war is stored and how an update cycle
  runs; `decimal` renders and reads the ids stored as text; `clock` reads the
  wall clock. Each multi-step update is a machine: `request` names the next
  database or ESI call, `step` takes its outcome.
- `app/` runs those machines against MySQL (sqlx), an ESI client and tokio.
- `tests/` exercises the library on concrete values.
