# wasm_store

The store of a WebAssembly interpreter, written and verified in Verus.

- `module`, `types`: the contents of a module, section by section, and the types in it.
- `func`, `instance`, `value`: function, table, memory, global and module instances.
- `link`: which values satisfy the imports of a module.
- `init`: constant expressions.
- `store`: the store, and what an embedder allocates through it.
- `heap`: where module instances and globals are kept.
- `valid`: what allocation relies on of a validated module.
- `prepare`: what the execution engine is asked to create before a module is instantiated.
- `allocate`, `instantiate`: the instance of a module, and what the execution engine is asked to do
  before it is ready.
- `ready`: checks that can be made before a module is instantiated.
- `invoke`: who runs a function, and with what.
- `laws`: what holds of all of these together.
- `error`, `text`: errors, and the texts of their messages.

Validating modules, keeping the contents of tables and memories, and running code are the business
of the execution engine. The library holds its answers as plain values and says what is to be done
with them; `app/` shows the two at work together.

A store holds nothing. Instances and globals, which change while they are shared, are kept on a
heap, of which a program has one, and are reached by handles; functions, tables and memories, of
which nothing ever changes here, are shared as they are.
