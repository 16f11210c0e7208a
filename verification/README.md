# luau_lifter

A verified reader for Luau bytecode blobs and the decisions of a small HTTP
decompilation server around it.

- `src/` is the library, checked by Verus. Each reader has a model in spec
  functions over the input bytes (`*_at`), and its executable code is proved
  to compute exactly that model, errors and positions included.
  - `reader`: fixed-size integers, byte strings, LEB128 numbers (read by
    `nom_leb128`) and counted lists.
  - `op_code`, `instruction`: opcodes and the decoding of instruction words.
  - `constant`, `function`, `chunk`, `bytecode`: the parts of a chunk, and
    `deserialize`; `constant_eq`: equality of constants, numbers compared as
    the floats they encode.
  - `server`: byte counts as text, settings, request admission and the
    accounting of request bodies, Base64 decoding of bodies, and the status
    and text of each response.
  - `laws`: properties over all inputs, proved.
- `tests/` runs the library on concrete inputs.
- `app/` is the server itself (hyper, tokio, logging, environment).
