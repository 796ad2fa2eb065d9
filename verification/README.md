# armature-validation

Request validation with its behaviour stated and proved in Verus.

- `src/` — the library, verified: error values (`errors`), form data
  (`form`), character classes (`text`), the built-in validators
  (`validators`: `NotEmpty`, `MinLength`, `MaxLength`, `IsEmail`, `IsUrl`,
  `IsUuid`, `IsAlpha`, `IsAlphanumeric`, `IsNumeric`, `Matches`, `Min`, `Max`,
  `InRange`, `IsPositive`), per-field rule sets and the form builder
  (`rules`), the request-body pipe (`pipe`), the `Validate` trait and the
  validation context (`traits`), and the laws that relate them (`laws`).
- `app/` — what needs serde, tokio or trait objects: JSON output of errors,
  request-body parsing, the parallel form validation, and the async and
  `dyn Any` validator traits.
- `tests/` — tests of the library.
