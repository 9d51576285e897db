# geo_utility

Utilities for GeoJSON feature collections: identifying domain entities,
merging touching line strings, thinning out near points, grouping overlapping
rectangles, picking features by a bounding box, and deciding which hull or
bounding box to collect for a feature.

- `src/` is the library, verified with Verus. It works on plain values: the
  JSON members a feature carries (`json`), and the facts that geometry gives
  about a feature (its type, which endpoints or coordinates lie near each other,
  whether it meets a region). Every public function states its result in its
  contract; the proof functions state the properties that hold across calls
  (groups are the connected components of the overlap relation, kept points lie
  apart and filtering twice changes nothing, every line string is merged
  exactly once).
- `union-find` is called from `src/grouping.rs` through trusted wrappers whose
  contracts describe the representative of each key; `serde_json` parses the
  inner properties of a feature in `src/json.rs`, its result named as a
  function of the text.
- `app/` is the program around the library: reading and writing GeoJSON, the
  floating-point geometry (geo, rstar, PROJ), the random data generators, and
  the conversions between GeoJSON values and the library's types.
- `tests/` exercises the library on concrete inputs.
