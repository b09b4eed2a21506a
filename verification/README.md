# djls_semantic

Semantic analysis of Django templates for the Django language server, written
in Verus: `{% load %}` scoping, the tags and filters available at each point,
template library registries, and the facts a Django project's settings, apps
and search paths give.

- `src/` is the verified library. Verus proves all of it; its public functions
  carry `requires` / `ensures` contracts (a few private helpers only serve
  the proofs of their callers). Calls into `camino`, `sha2`, `dotenvy`
  and `ignore` go through small trusted wrappers whose contracts are written
  from those crates' sources.
- `app/` is the unverified layer around it: reading files and directories,
  the process environment, parsing Python with `ruff`, and the JSON cache of
  template library snapshots.
- `tests/` runs the library on concrete inputs.
