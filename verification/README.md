# formoxus

The decision-making core of formoxus — reflection-based forms for Dioxus —
written in Verus, with each decision stated as a contract and proved.

`src/` is the verified library:

- `buttons` — button types and specs, the handler map (`Fns`) kept in name
  order, the check that handlers and declared buttons agree (`reconcile`),
  and the button row a form renders.
- `button_meta`, `field_meta` — the attribute rules of a derived form: one
  submit button, unique names, reserved field names, how each field renders,
  and the order of the button row.
- `grammar`, `vocab`, `spec_path`, `checks` — what `form!`, `form2!` and
  `using_fns!` accept, every message they give, the map key of a field path,
  and the compile-time checks planted for each constraint and widget.
- `fields`, `field_kind`, `pattern` — what a field's value must satisfy, and
  which constraints and widgets a field's type can take.
- `members`, `rows`, `variant` — a built form's member tree as plain values
  (its leaves by qualified path, taking values back in, placing and
  collecting field errors by path), the keyed rows of a list member and the
  variant of an enum member.
- `label_case`, `suggest`, `text`, `defaults`, `path`, `error` — casing,
  "did you mean" suggestions, text helpers, app defaults, typed paths, and
  the error types.

`app/` holds what the library leaves to ordinary Rust: the serde copies of the
error types, reading facet shapes, the floating-point checks, and the
token-level work of the macros.
