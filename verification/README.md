# شِفرة · Shifra — verified language layer

Shifra is an Arabic spelling of Python 3 (`عرف` = `def`, `إذا` = `if`,
`اطبع` = `print`, …). This crate is its language layer, written in Verus:
every executable function of `src/` carries a contract. Verus proves them
all but four, small wrappers around std (`char::is_alphanumeric`,
`char::is_whitespace`, `String::push`, `char::from_u32`), whose contracts
state what std documents and are trusted.

## Layout

| Path | What it holds |
| --- | --- |
| `src/preprocessor.rs` | `translate`: Shifra source → Python source, specified token by token by `translation` |
| `src/scan.rs` | character classes, Arabic digits, Shifra escapes, string-literal and f-string brace scanning |
| `src/keywords.rs`, `builtins.rs`, `methods.rs`, `modules.rs` | the Arabic ↔ Python dictionaries and their lookups |
| `src/text.rs` | `str`/`String` ↔ characters, table lookup, the std character classes |
| `src/shaping.rs` | Arabic shaping into presentation forms for Tk on X11 |
| `src/tk.rs` | the `argv` options handed to a new Tk interpreter |
| `src/laws.rs` | properties proved of `translate` for whole families of inputs |
| `src/table_laws.rs` | properties of the dictionaries as a whole |
| `app/` | the `shifra` program: reads a file, translates it, runs it on the RustPython VM; fribidi reordering for display |
| `tests/` | scenarios |

## Proofs and tests

Verus proves the contracts of `src/`; `cargo test` runs the scenarios.
