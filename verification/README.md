# bevy_enum_event

The planning core of the `EnumEvent`, `EnumMessage` and `EnumEntityEvent`
derives, which turn each variant of an enum into its own Bevy event, message
or entity-event struct inside a snake_case module.

- `src/` is verified with Verus. It takes the derive input as plain values
  (`model`), reads the `#[enum_event(..)]` attributes (`attrs`), finds the
  generic parameters each variant leaves unused (`generics`), adjusts a
  propagation relation type for use inside the generated module (`tokens`),
  converts names to snake_case (`naming`) and computes the expansion plan or
  the reason for refusing the input (`plan`). `laws` states properties of the
  plan that hold for every input.
- `app/` parses the item with `syn`, builds the model, calls the planner and
  writes the planned module with `quote`. Its three entry points take and
  return `proc_macro2` token streams. Registering them as derives takes a
  crate of the `proc-macro` type, which this package does not declare: such a
  crate wraps each entry point in a `#[proc_macro_derive]` function
  (`EnumEvent` and `EnumMessage` with the helper attributes `enum_event`,
  `deref` and `deref_mut`; `EnumEntityEvent` with `enum_event`,
  `event_target`, `deref` and `deref_mut`) and converts between
  `proc_macro::TokenStream` and `proc_macro2::TokenStream`.
- `tests/` runs the planner and the token rewriting on concrete inputs.
