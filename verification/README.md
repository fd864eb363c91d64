# naga_cpp

A C++17 backend for shader modules, verified with Verus. It turns a module
(types, constants, global variables, functions and compute entry points)
into C++ source that includes `wgsl_runtime.hpp`, or reports the first
feature it cannot express.

Layout of `src/`:

- `ir.rs`: the module as the backend reads it; handles are indices.
- `conv.rs`: scalar types, vector sizes and operators in C++ spelling.
- `text.rs`: decimal numerals and indentation.
- `names.rs`: lookups in the table of identifiers chosen for the module.
- `render.rs`: the C++ text of every part of a module, as spec functions;
  where the backend refuses something, the refusal together with the text
  written before it.
- `valid.rs`: what a module must satisfy for the writer to run to its end
  (handles in range, every used item named, no key given twice).
- `writer.rs`: the `Writer`, proved to append exactly the text `render.rs`
  describes, or to fail with the error it describes after appending exactly
  the text written before the refusal (nothing, for the refusals that come
  first).
- `laws.rs`: properties of every written module.
- `lib.rs`: `Error`, `Options` and `write_string`.

`app/` holds a copy of `Error` with the `Display` and `std::error::Error`
impls derived by `thiserror`.
