# microserde

Visitor-based JSON deserialization, with its logic verified by Verus.

A value is deserialized by writing into an output slot (`&mut Option<T>`)
through a *place*: a scalar is written directly, a JSON array or object is
written through a builder that hands out one slot per element or entry and
writes the collected value when it is finished.

## Layout

- `src/de/` — `Scalar`, the `Deserialize` trait (what each type accepts from
  a scalar and what it writes), `Place`, the transparent wrapper places, and
  the built-in impls and builders (`()`, `bool`, `String`, `PathBuf`, the
  integer types, `Box`, `Option`, pairs, `Vec`, `BTreeMap`, `HashMap`);
  `keys.rs` reads integer map keys from their decimal text.
- `src/json/` — the JSON `Value` tree and `Object`, a map kept sorted by the
  UTF-8 bytes of its keys.
- `src/ignore.rs` — the place that accepts and discards anything.
- `src/derive/` — the attribute and shape rules behind
  `#[derive(Deserialize)]` and `#[derive(Serialize)]`, on a plain-value form
  of the derive input.
- `app/` — the trait-object visitor protocol that drives the places and
  builders, and the token generation of the derive macros (with `syn`,
  `quote` and `proc-macro2`).
- `tests/` — tests of the library.
