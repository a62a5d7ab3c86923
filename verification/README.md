# pg_typescript

A PostgreSQL extension that lets you write functions in TypeScript, powered by
Deno. The rules of the extension are a library that is verified with Verus; the
glue to the server and to the runtime is ordinary Rust.

## Layout

- `src/` holds the verified library.
  - `guc`: the settings and what their texts mean.
  - `permissions`: what a function or `DO` block may do, under the caps of the
    superuser.
  - `import_map`, `specifier`, `json`: import maps, module URLs, JSON documents.
  - `loader`, `resolve`: how imports are resolved and modules are found.
  - `module_store`, `fetch`: storage for fetched modules, and fetching them.
  - `artifact`, `plhandler`: the generated module of a function, and what is
    settled before anything runs.
  - `convert`, `extensions`: how values cross between SQL and JavaScript, and
    `_pg.execute()`.
  - `text`, `error`, `runtime`: text operations, errors, runtime permissions.
- `app/` holds the extension itself: registration, the language handlers, the
  runtime, the HTTP client and the module table.
- `tests/` holds the tests of the library.

## What is proved

Each function states what it returns, and for each error the inputs that lead to
it. Beyond that, contracts and the functions whose names begin with `law_` state
what holds of the library as a whole, among it:

- No run is granted more than its caps permit, and nothing that nobody asked for
  but imports.
- A function body imports only modules that its import map declares, all of them
  from `http` and `https` URLs that the cap on imports allows.
- No code reaches the generated modules of functions: under a valid import map,
  what the generated module imports, and what a dependency over `http` or `https`
  imports that is named by its serialized URL, comes over `http` or `https`.
- Fetching keeps to the cap on imports: no URL that the cap refuses is fetched or
  stored, every one that it allows is stored unless the store itself fails, and
  the modules of other functions are left alone.
- A parameter of `_pg.execute()` without a type of its own is bound with one that
  is read back as a value of its kind.
- An import map is determined by what its keys stand for, and so are the text, the
  hash and the specifier of a generated module that it is part of.
- Validation and execution of a function work on the same generated module.
- A value that a function returns is one of the declared SQL type, and an integer
  arrives unchanged or is refused.

## What is trusted

- URL parsing and joining, from `deno_graph`, which re-exports the `url` crate's
  type: that they depend on their arguments alone, that a text that begins with
  `http://` or `https://` keeps such a scheme, and that a path keeps the scheme of
  its base.
- JSON parsing, from `serde_json`: that it depends on the text alone.
- `String::push` and `std::str::from_utf8` of the standard library.
